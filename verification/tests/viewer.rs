use std::path::PathBuf;

use aetherment::config::{ConfOption, Config, PenumbraOption, TypPenumbra};
use aetherment::file::{FileLayer, PenumbraFile};
use aetherment::path_map::PathMap;
use aetherment::viewer::{Conf, Datas};

fn file(path: &str) -> PenumbraFile {
    PenumbraFile(vec![FileLayer { id: None, paths: vec![path.to_string()] }])
}

fn datas() -> Datas {
    let mut config = Config {
        options: vec![ConfOption::Multi(TypPenumbra {
            name: "extras".to_string(),
            description: String::new(),
            options: vec![PenumbraOption {
                name: "hat".to_string(),
                files: PathMap::new(),
                swaps: PathMap::new(),
                manipulations: vec![],
            }],
        })],
        files: PathMap::new(),
        swaps: PathMap::new(),
        manipulations: vec![],
    };
    config.update_file("", "", "a.tex", Some(file("top"))).unwrap();
    config.update_file("extras", "hat", "a.tex", Some(file("hat"))).unwrap();
    Datas { penumbra: Some(config) }
}

#[test]
fn an_editor_reads_the_selected_scope() {
    let mut datas = datas();
    let (mut option, mut sub_option) = ("extras".to_string(), "hat".to_string());
    let conf = Conf {
        path: PathBuf::from("mods/some"),
        datas: &mut datas,
        option: &mut option,
        sub_option: &mut sub_option,
    };
    assert_eq!(conf.file_ref("a.tex").unwrap().0[0].paths, vec!["hat"]);
    assert!(conf.file_ref("b.tex").is_none());
}

#[test]
fn an_editor_without_selection_reads_the_top() {
    let mut datas = datas();
    let (mut option, mut sub_option) = (String::new(), String::new());
    let conf = Conf {
        path: PathBuf::new(),
        datas: &mut datas,
        option: &mut option,
        sub_option: &mut sub_option,
    };
    assert_eq!(conf.file_ref("a.tex").unwrap().0[0].paths, vec!["top"]);
}

#[test]
fn an_editor_finds_nothing_in_a_scope_that_is_not_there() {
    let mut datas = datas();
    let (mut option, mut sub_option) = ("extras".to_string(), "cape".to_string());
    let mut conf = Conf {
        path: PathBuf::new(),
        datas: &mut datas,
        option: &mut option,
        sub_option: &mut sub_option,
    };
    assert!(conf.file_ref("a.tex").is_none());
    assert!(conf.file_mut("a.tex").is_none());
}

#[test]
fn an_editor_changes_an_override_in_place() {
    let mut datas = datas();
    let (mut option, mut sub_option) = ("extras".to_string(), "hat".to_string());
    let mut conf = Conf {
        path: PathBuf::new(),
        datas: &mut datas,
        option: &mut option,
        sub_option: &mut sub_option,
    };
    *conf.file_mut("a.tex").unwrap() = file("feathered");
    assert_eq!(conf.file_ref("a.tex").unwrap().0[0].paths, vec!["feathered"]);
    assert!(conf.file_mut("b.tex").is_none());
    let config = datas.penumbra.as_ref().unwrap();
    assert_eq!(config.file_ref("extras", "hat", "a.tex").unwrap().0[0].paths, vec!["feathered"]);
    assert_eq!(config.file_ref("", "", "a.tex").unwrap().0[0].paths, vec!["top"]);
}

#[test]
fn an_editor_of_a_mod_without_configuration_finds_nothing() {
    let mut datas = Datas { penumbra: None };
    let (mut option, mut sub_option) = ("extras".to_string(), "hat".to_string());
    let mut conf = Conf {
        path: PathBuf::new(),
        datas: &mut datas,
        option: &mut option,
        sub_option: &mut sub_option,
    };
    assert!(conf.file_ref("a.tex").is_none());
    assert!(conf.file_mut("a.tex").is_none());
    assert!(datas.penumbra.is_none());
}
