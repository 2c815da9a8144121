//! What an editor of one file works on: the data of the mod that is open, and the
//! scope that the user has selected in it.

use std::path::PathBuf;
use vstd::prelude::*;
use crate::config::{changed_at, Config, LookupError};
use crate::file::PenumbraFile;

verus! {

/// `std::path::PathBuf`, carried through as it is: nothing is read from it here and
/// nothing is claimed of it.
#[verifier::external_type_specification]
#[verifier::external_body]
pub struct ExPathBuf(PathBuf);

/// The data of an open mod. A mod that changes no files has no configuration.
#[derive(Debug)]
pub struct Datas {
    pub penumbra: Option<Config>,
}

/// The handle that an editor gets: the directory of the mod, its data, and the
/// names of the option and of the alternative whose overrides it edits.
pub struct Conf<'a> {
    pub path: PathBuf,
    pub datas: &'a mut Datas,
    pub option: &'a mut String,
    pub sub_option: &'a mut String,
}

impl<'a> Conf<'a> {
    /// The override of `path` in the selected scope, if the mod has a
    /// configuration, the scope is there and it has one.
    pub fn file_ref<'b>(&'b self, path: &str) -> (r: Option<&'b PenumbraFile>)
        ensures
            match old(self.datas).penumbra {
                None => r is None,
                Some(config) => match r {
                    Some(f) => config.lookup(old(self.option)@, old(self.sub_option)@, path@)
                        == Ok::<PenumbraFile, LookupError>(*f),
                    None => config.lookup(old(self.option)@, old(self.sub_option)@, path@) is Err,
                },
            },
    {
        match &self.datas.penumbra {
            Some(config) => match config.file_ref(
                self.option.as_str(),
                self.sub_option.as_str(),
                path,
            ) {
                Ok(f) => Some(f),
                Err(_) => None,
            },
            None => None,
        }
    }

    /// The override of `path` in the selected scope, to be changed in place, if
    /// the mod has a configuration, the scope is there and it has one. Where it
    /// has none, nothing is changed.
    pub fn file_mut<'b>(&'b mut self, path: &str) -> (r: Option<&'b mut PenumbraFile>)
        ensures
            final(self).option@ == old(self).option@,
            final(self).sub_option@ == old(self).sub_option@,
            final(self).path == old(self).path,
            final(self).datas.penumbra is Some <==> old(self).datas.penumbra is Some,
            old(self).datas.penumbra is None ==> r is None,
            old(self).datas.penumbra is Some ==> match r {
                Some(f) => {
                    &&& old(self).datas.penumbra->Some_0.lookup(
                        old(self).option@,
                        old(self).sub_option@,
                        path@,
                    ) == Ok::<PenumbraFile, LookupError>(*f)
                    &&& old(self).datas.penumbra->Some_0.scope(
                        old(self).option@,
                        old(self).sub_option@,
                    ) matches Ok(s)
                    &&& changed_at(
                        old(self).datas.penumbra->Some_0,
                        final(self).datas.penumbra->Some_0,
                        s,
                        old(self).datas.penumbra->Some_0.files_at(s).insert(path@, *final(f)),
                    )
                },
                None => {
                    &&& old(self).datas.penumbra->Some_0.lookup(
                        old(self).option@,
                        old(self).sub_option@,
                        path@,
                    ) is Err
                    &&& final(self).datas.penumbra == old(self).datas.penumbra
                },
            },
    {
        match &mut self.datas.penumbra {
            Some(config) => match config.file_mut(
                self.option.as_str(),
                self.sub_option.as_str(),
                path,
            ) {
                Ok(f) => Some(f),
                Err(_) => None,
            },
            None => None,
        }
    }
}

} // verus!
