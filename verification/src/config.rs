//! The option schema of a mod and the store of its file overrides.
//!
//! Overrides live in scopes: the top level of the configuration, which applies
//! when no option is selected, and one scope for every alternative that a
//! grouping option offers. A scope is addressed by the names of the option and of
//! the alternative.

use vstd::prelude::*;
use crate::factor::Factor;
use crate::file::PenumbraFile;
use crate::path_map::PathMap;
use crate::setting::{ConfSetting, Kind};

verus! {

/// A colour knob with alpha.
#[derive(Debug)]
pub struct TypRgba {
    pub id: String,
    pub name: String,
    pub description: String,
    pub default: [Factor; 4],
}

/// A colour knob.
#[derive(Debug)]
pub struct TypRgb {
    pub id: String,
    pub name: String,
    pub description: String,
    pub default: [Factor; 3],
}

/// A knob with one multiplier.
#[derive(Debug)]
pub struct TypSingle {
    pub id: String,
    pub name: String,
    pub description: String,
    pub default: Factor,
}

/// A grouping option: the alternatives that it offers.
#[derive(Debug)]
pub struct TypPenumbra {
    pub name: String,
    pub description: String,
    pub options: Vec<PenumbraOption>,
}

/// One alternative of a grouping option: a named bundle of overrides.
#[derive(Debug)]
pub struct PenumbraOption {
    pub name: String,
    pub files: PathMap<PenumbraFile>,
    pub swaps: PathMap<String>,
    pub manipulations: Vec<u32>,
}

/// One configurable knob of a mod.
#[derive(Debug)]
pub enum ConfOption {
    Rgb(TypRgb),
    Rgba(TypRgba),
    Grayscale(TypSingle),
    Opacity(TypSingle),
    Mask(TypSingle),
    Single(TypPenumbra),
    Multi(TypPenumbra),
}

/// The descriptor of a mod: its options, and the overrides that apply when no
/// option is selected.
#[derive(Debug)]
pub struct Config {
    pub options: Vec<ConfOption>,
    pub files: PathMap<PenumbraFile>,
    pub swaps: PathMap<String>,
    pub manipulations: Vec<u32>,
}

/// Why a scope or an override was not found.
#[derive(Clone, Copy, Debug, PartialEq, Eq, Structural)]
pub enum LookupError {
    /// No option has the name asked for.
    UnknownOption,
    /// The option of that name is a scalar knob: it has no alternatives.
    NotAGroup,
    /// The grouping option has no alternative of the name asked for.
    UnknownSuboption,
    /// The scope has no override for the path asked for.
    UnknownPath,
}

/// A scope of overrides: the top level, or an alternative of a grouping option,
/// by the places of the two in their lists.
#[derive(Clone, Copy, Debug, PartialEq, Eq, Structural)]
pub enum Scope {
    Top,
    Sub { option: usize, suboption: usize },
}

/// A scope as a value: the places are positions in the lists, as integers.
pub ghost enum Place {
    Top,
    Sub { option: int, suboption: int },
}

impl View for Scope {
    type V = Place;

    open spec fn view(&self) -> Place {
        match self {
            Scope::Top => Place::Top,
            Scope::Sub { option, suboption } => Place::Sub {
                option: *option as int,
                suboption: *suboption as int,
            },
        }
    }
}

/// `i` is the first place in `names` at which `name` stands.
pub open spec fn is_first(names: Seq<Seq<char>>, name: Seq<char>, i: int) -> bool {
    &&& 0 <= i < names.len()
    &&& names[i] == name
    &&& forall|j: int| 0 <= j < i ==> #[trigger] names[j] != name
}

/// The first place in `names` at which `name` stands, if it stands there at all.
pub open spec fn first_index(names: Seq<Seq<char>>, name: Seq<char>) -> Option<int> {
    if exists|i: int| is_first(names, name, i) {
        Some(choose|i: int| is_first(names, name, i))
    } else {
        None
    }
}

proof fn lemma_first_index(names: Seq<Seq<char>>, name: Seq<char>, i: int)
    requires
        is_first(names, name, i),
    ensures
        first_index(names, name) == Some(i),
{
    let c = choose|c: int| is_first(names, name, c);
    if c < i {
        assert(names[c] != name);
    }
    if i < c {
        assert(names[i] != name);
    }
}

proof fn lemma_no_index(names: Seq<Seq<char>>, name: Seq<char>)
    requires
        forall|i: int| 0 <= i < names.len() ==> #[trigger] names[i] != name,
    ensures
        first_index(names, name) is None,
{
}

impl TypPenumbra {
    /// The names of the alternatives, in their order.
    pub open spec fn names(self) -> Seq<Seq<char>> {
        Seq::new(self.options@.len(), |j: int| self.options@[j].name@)
    }

    /// The place of the first alternative called `name`.
    fn find(&self, name: &String) -> (at: Option<usize>)
        ensures
            match at {
                Some(j) => first_index(self.names(), name@) == Some(j as int),
                None => first_index(self.names(), name@) is None,
            },
    {
        let mut j: usize = 0;
        while j < self.options.len()
            invariant
                j <= self.options@.len(),
                forall|k: int| 0 <= k < j ==> #[trigger] self.names()[k] != name@,
            decreases self.options@.len() - j,
        {
            if self.options[j].name == *name {
                proof {
                    lemma_first_index(self.names(), name@, j as int);
                }
                return Some(j);
            }
            j += 1;
        }
        proof {
            lemma_no_index(self.names(), name@);
        }
        None
    }
}

impl ConfOption {
    pub open spec fn kind(self) -> Kind {
        match self {
            ConfOption::Rgb(_) => Kind::Rgb,
            ConfOption::Rgba(_) => Kind::Rgba,
            ConfOption::Grayscale(_) => Kind::Grayscale,
            ConfOption::Opacity(_) => Kind::Opacity,
            ConfOption::Mask(_) => Kind::Mask,
            ConfOption::Single(_) => Kind::Single,
            ConfOption::Multi(_) => Kind::Multi,
        }
    }

    /// The name of the option, as a value.
    pub open spec fn name_text(self) -> Seq<char> {
        match self {
            ConfOption::Rgb(v) => v.name@,
            ConfOption::Rgba(v) => v.name@,
            ConfOption::Grayscale(v) => v.name@,
            ConfOption::Opacity(v) => v.name@,
            ConfOption::Mask(v) => v.name@,
            ConfOption::Single(v) => v.name@,
            ConfOption::Multi(v) => v.name@,
        }
    }

    /// The id under which a scalar option's value is kept. A grouping option has
    /// none.
    pub open spec fn id_text(self) -> Option<Seq<char>> {
        match self {
            ConfOption::Rgb(v) => Some(v.id@),
            ConfOption::Rgba(v) => Some(v.id@),
            ConfOption::Grayscale(v) => Some(v.id@),
            ConfOption::Opacity(v) => Some(v.id@),
            ConfOption::Mask(v) => Some(v.id@),
            ConfOption::Single(_) => None,
            ConfOption::Multi(_) => None,
        }
    }

    /// The value that a scalar option has until the user selects one. A grouping
    /// option carries no value, and so has none.
    pub open spec fn default_value(self) -> Option<ConfSetting> {
        match self {
            ConfOption::Rgb(v) => Some(ConfSetting::Rgb(v.default)),
            ConfOption::Rgba(v) => Some(ConfSetting::Rgba(v.default)),
            ConfOption::Grayscale(v) => Some(ConfSetting::Grayscale(v.default)),
            ConfOption::Opacity(v) => Some(ConfSetting::Opacity(v.default)),
            ConfOption::Mask(v) => Some(ConfSetting::Mask(v.default)),
            ConfOption::Single(_) => None,
            ConfOption::Multi(_) => None,
        }
    }

    /// The alternatives of a grouping option.
    pub open spec fn group(self) -> Option<TypPenumbra> {
        match self {
            ConfOption::Single(v) => Some(v),
            ConfOption::Multi(v) => Some(v),
            _ => None,
        }
    }

    fn name_string(&self) -> (r: &String)
        ensures
            r@ == self.name_text(),
    {
        match self {
            ConfOption::Rgb(v) => &v.name,
            ConfOption::Rgba(v) => &v.name,
            ConfOption::Grayscale(v) => &v.name,
            ConfOption::Opacity(v) => &v.name,
            ConfOption::Mask(v) => &v.name,
            ConfOption::Single(v) => &v.name,
            ConfOption::Multi(v) => &v.name,
        }
    }

    /// The name of the option.
    pub fn name(&self) -> (r: &str)
        ensures
            r@ == self.name_text(),
    {
        self.name_string().as_str()
    }

    /// The id of a scalar option; nothing for a grouping option.
    pub fn id(&self) -> (r: Option<&str>)
        ensures
            match r {
                Some(s) => self.id_text() == Some(s@),
                None => self.id_text() is None,
            },
    {
        match self {
            ConfOption::Rgb(v) => Some(v.id.as_str()),
            ConfOption::Rgba(v) => Some(v.id.as_str()),
            ConfOption::Grayscale(v) => Some(v.id.as_str()),
            ConfOption::Opacity(v) => Some(v.id.as_str()),
            ConfOption::Mask(v) => Some(v.id.as_str()),
            ConfOption::Single(_) => None,
            ConfOption::Multi(_) => None,
        }
    }

    /// The default value of a scalar option, which is of the option's kind. A
    /// grouping option has no value: to ask one for it is an error of the caller.
    pub fn default(&self) -> (r: ConfSetting)
        requires
            self.kind().is_scalar(),
        ensures
            self.default_value() == Some(r),
            r.kind() == self.kind(),
    {
        match self {
            ConfOption::Rgb(v) => ConfSetting::Rgb(v.default),
            ConfOption::Rgba(v) => ConfSetting::Rgba(v.default),
            ConfOption::Grayscale(v) => ConfSetting::Grayscale(v.default),
            ConfOption::Opacity(v) => ConfSetting::Opacity(v.default),
            ConfOption::Mask(v) => ConfSetting::Mask(v.default),
            ConfOption::Single(_) => unreached(),
            ConfOption::Multi(_) => unreached(),
        }
    }
}

impl Config {
    /// The names of the options, in their order.
    pub open spec fn names(self) -> Seq<Seq<char>> {
        Seq::new(self.options@.len(), |i: int| self.options@[i].name_text())
    }

    /// The scope that the names `opt` and `subopt` address. The empty `opt` is
    /// the top level, whatever `subopt` is. Of several options or alternatives
    /// with one name the first is meant.
    pub open spec fn scope(self, opt: Seq<char>, subopt: Seq<char>) -> Result<Place, LookupError> {
        if opt.len() == 0 {
            Ok(Place::Top)
        } else {
            match first_index(self.names(), opt) {
                None => Err(LookupError::UnknownOption),
                Some(i) => match self.options@[i].group() {
                    None => Err(LookupError::NotAGroup),
                    Some(g) => match first_index(g.names(), subopt) {
                        None => Err(LookupError::UnknownSuboption),
                        Some(j) => Ok(Place::Sub { option: i, suboption: j }),
                    },
                },
            }
        }
    }

    /// A scope that this configuration has.
    pub open spec fn has_scope(self, s: Place) -> bool {
        match s {
            Place::Top => true,
            Place::Sub { option, suboption } => {
                &&& 0 <= option < self.options@.len()
                &&& self.options@[option].group() matches Some(g)
                &&& 0 <= suboption < g.options@.len()
            },
        }
    }

    /// The overrides of a scope.
    pub open spec fn files_at(self, s: Place) -> Map<Seq<char>, PenumbraFile> {
        match s {
            Place::Top => self.files@,
            Place::Sub { option, suboption } => self.options@[option].group()->Some_0.options@[suboption].files@,
        }
    }

    /// Finds the scope that two names address.
    pub fn locate(&self, opt: &str, subopt: &str) -> (r: Result<Scope, LookupError>)
        ensures
            scope_view(r) == self.scope(opt@, subopt@),
            r matches Ok(s) ==> self.has_scope(s@),
    {
        if opt.is_empty() {
            return Ok(Scope::Top);
        }
        let wanted = opt.to_owned();
        let mut i: usize = 0;
        while i < self.options.len()
            invariant
                i <= self.options@.len(),
                wanted@ == opt@,
                opt@.len() != 0,
                forall|k: int| 0 <= k < i ==> #[trigger] self.names()[k] != opt@,
            decreases self.options@.len() - i,
        {
            if *self.options[i].name_string() == wanted {
                proof {
                    lemma_first_index(self.names(), opt@, i as int);
                }
                let group = match &self.options[i] {
                    ConfOption::Single(g) => g,
                    ConfOption::Multi(g) => g,
                    _ => { return Err(LookupError::NotAGroup); },
                };
                let alternative = subopt.to_owned();
                return match group.find(&alternative) {
                    Some(j) => Ok(Scope::Sub { option: i, suboption: j }),
                    None => Err(LookupError::UnknownSuboption),
                };
            }
            i += 1;
        }
        proof {
            lemma_no_index(self.names(), opt@);
        }
        Err(LookupError::UnknownOption)
    }

    /// The overrides of a scope that this configuration has.
    fn files_of(&self, s: Scope) -> (r: &PathMap<PenumbraFile>)
        requires
            self.has_scope(s@),
        ensures
            r@ == self.files_at(s@),
    {
        match s {
            Scope::Top => &self.files,
            Scope::Sub { option, suboption } => match &self.options[option] {
                ConfOption::Single(g) => &g.options[suboption].files,
                ConfOption::Multi(g) => &g.options[suboption].files,
                _ => &self.files,
            },
        }
    }

    /// What a lookup of `path` in the scope that `opt` and `subopt` address gives.
    pub open spec fn lookup(self, opt: Seq<char>, subopt: Seq<char>, path: Seq<char>) -> Result<
        PenumbraFile,
        LookupError,
    > {
        match self.scope(opt, subopt) {
            Err(e) => Err(e),
            Ok(s) => if self.files_at(s).contains_key(path) {
                Ok(self.files_at(s)[path])
            } else {
                Err(LookupError::UnknownPath)
            },
        }
    }

    /// The override of `path` in the scope that `opt` and `subopt` address.
    pub fn file_ref(&self, opt: &str, subopt: &str, path: &str) -> (r: Result<
        &PenumbraFile,
        LookupError,
    >)
        ensures
            match r {
                Ok(f) => self.lookup(opt@, subopt@, path@) == Ok::<PenumbraFile, LookupError>(*f),
                Err(e) => self.lookup(opt@, subopt@, path@) == Err::<PenumbraFile, LookupError>(e),
            },
    {
        let s = match self.locate(opt, subopt) {
            Ok(s) => s,
            Err(e) => { return Err(e); },
        };
        match self.files_of(s).get(path) {
            Some(f) => Ok(f),
            None => Err(LookupError::UnknownPath),
        }
    }

    /// The override of `path` in the scope that `opt` and `subopt` address, to be
    /// changed in place. The scope afterwards holds at `path` whatever the caller
    /// leaves there, and nothing else has changed.
    pub fn file_mut(&mut self, opt: &str, subopt: &str, path: &str) -> (r: Result<
        &mut PenumbraFile,
        LookupError,
    >)
        ensures
            match r {
                Ok(f) => {
                    &&& old(self).lookup(opt@, subopt@, path@) == Ok::<PenumbraFile, LookupError>(*f)
                    &&& old(self).scope(opt@, subopt@) matches Ok(s)
                    &&& changed_at(
                        *old(self),
                        *final(self),
                        s,
                        old(self).files_at(s).insert(path@, *final(f)),
                    )
                },
                Err(e) => {
                    &&& old(self).lookup(opt@, subopt@, path@) == Err::<PenumbraFile, LookupError>(e)
                    &&& *final(self) == *old(self)
                },
            },
    {
        let s = match self.locate(opt, subopt) {
            Ok(s) => s,
            Err(e) => { return Err(e); },
        };
        if self.files_of(s).get(path).is_none() {
            return Err(LookupError::UnknownPath);
        }
        match self.files_of_mut(s).get_mut(path) {
            Some(f) => Ok(f),
            None => Err(LookupError::UnknownPath),
        }
    }

    /// The overrides of a scope, to be changed in place.
    fn files_of_mut(&mut self, s: Scope) -> (r: &mut PathMap<PenumbraFile>)
        requires
            old(self).has_scope(s@),
        ensures
            r@ == old(self).files_at(s@),
            changed_at(*old(self), *final(self), s@, final(r)@),
    {
        match s {
            Scope::Top => &mut self.files,
            Scope::Sub { option, suboption } => match &mut self.options[option] {
                ConfOption::Single(g) => &mut g.options[suboption].files,
                ConfOption::Multi(g) => &mut g.options[suboption].files,
                _ => &mut self.files,
            },
        }
    }

    /// Sets or clears the override of `path` in the scope that `opt` and `subopt`
    /// address: with a file, the scope holds it at `path` afterwards, in place of
    /// what was there; without one, the scope has nothing at `path` afterwards.
    /// Where the names address no scope the configuration is left as it was.
    pub fn update_file(&mut self, opt: &str, subopt: &str, path: &str, file: Option<PenumbraFile>) -> (r:
        Result<(), LookupError>)
        ensures
            match old(self).scope(opt@, subopt@) {
                Err(e) => r == Err::<(), LookupError>(e) && *final(self) == *old(self),
                Ok(s) => r is Ok && changed_at(
                    *old(self),
                    *final(self),
                    s,
                    match file {
                        Some(f) => old(self).files_at(s).insert(path@, f),
                        None => old(self).files_at(s).remove(path@),
                    },
                ),
            },
    {
        let s = match self.locate(opt, subopt) {
            Ok(s) => s,
            Err(e) => { return Err(e); },
        };
        let files = self.files_of_mut(s);
        match file {
            Some(f) => {
                files.insert(path.to_owned(), f);
            },
            None => {
                files.remove(path);
            },
        }
        Ok(())
    }
}

/// `after` is `before` but for the overrides of one alternative, the one at the
/// place `j`.
pub open spec fn group_changed_at(before: TypPenumbra, after: TypPenumbra, j: int) -> bool {
    &&& after.name == before.name
    &&& after.description == before.description
    &&& after.options@.len() == before.options@.len()
    &&& forall|l: int|
        0 <= l < before.options@.len() && l != j ==> #[trigger] after.options@[l]
            == before.options@[l]
    &&& after.options@[j].name == before.options@[j].name
    &&& after.options@[j].swaps == before.options@[j].swaps
    &&& after.options@[j].manipulations == before.options@[j].manipulations
}

/// `after` is `before` but for the overrides of the scope `s`, which are `files`.
pub open spec fn changed_at(
    before: Config,
    after: Config,
    s: Place,
    files: Map<Seq<char>, PenumbraFile>,
) -> bool {
    &&& after.files_at(s) == files
    &&& after.swaps == before.swaps
    &&& after.manipulations == before.manipulations
    &&& match s {
        Place::Top => after.options == before.options,
        Place::Sub { option, suboption } => {
            &&& after.files == before.files
            &&& after.options@.len() == before.options@.len()
            &&& forall|k: int|
                0 <= k < before.options@.len() && k != option ==> #[trigger] after.options@[k]
                    == before.options@[k]
            &&& after.options@[option].kind() == before.options@[option].kind()
            &&& group_changed_at(
                before.options@[option].group()->Some_0,
                after.options@[option].group()->Some_0,
                suboption,
            )
        },
    }
}

/// No name stands twice in `names`.
pub open spec fn names_unique(names: Seq<Seq<char>>) -> bool {
    forall|i: int, j: int| 0 <= i < j < names.len() ==> #[trigger] names[i] != #[trigger] names[j]
}

/// Where the options have names of their own and so have the alternatives of each
/// grouping option, a pair of names addresses the alternative that bears them,
/// wherever it stands.
pub proof fn unique_names_address_their_bearer(c: Config, option: int, suboption: int)
    requires
        names_unique(c.names()),
        0 <= option < c.options@.len(),
        c.options@[option].group() matches Some(g) && names_unique(g.names()) && 0 <= suboption
            < g.options@.len(),
        c.names()[option].len() != 0,
    ensures
        c.scope(
            c.options@[option].name_text(),
            c.options@[option].group()->Some_0.options@[suboption].name@,
        ) == Ok::<Place, LookupError>(Place::Sub { option, suboption }),
{
    let g = c.options@[option].group()->Some_0;
    assert(is_first(c.names(), c.names()[option], option));
    lemma_first_index(c.names(), c.names()[option], option);
    assert(is_first(g.names(), g.names()[suboption], suboption));
    lemma_first_index(g.names(), g.names()[suboption], suboption);
}

/// Every option that has a default value has one of its own kind, and the options
/// that have one are the scalar ones.
pub proof fn default_is_of_the_options_kind(o: ConfOption)
    ensures
        o.default_value() is Some <==> o.kind().is_scalar(),
        o.default_value() matches Some(v) ==> v.kind() == o.kind(),
{
}

/// The view of an outcome of finding a scope.
pub open spec fn scope_view(r: Result<Scope, LookupError>) -> Result<Place, LookupError> {
    match r {
        Ok(s) => Ok(s@),
        Err(e) => Err(e),
    }
}

/// The scope that two names address is one that the configuration has.
pub proof fn addressed_scope_exists(c: Config, opt: Seq<char>, subopt: Seq<char>)
    requires
        c.scope(opt, subopt) is Ok,
    ensures
        c.has_scope(c.scope(opt, subopt)->Ok_0),
{
    if opt.len() != 0 {
        let i = first_index(c.names(), opt)->Some_0;
        assert(is_first(c.names(), opt, i));
        let g = c.options@[i].group()->Some_0;
        let j = first_index(g.names(), subopt)->Some_0;
        assert(is_first(g.names(), subopt, j));
    }
}

/// A change of the overrides of one scope moves no scope: every pair of names
/// addresses afterwards what it addressed before.
pub proof fn scopes_are_kept(
    before: Config,
    after: Config,
    s: Place,
    files: Map<Seq<char>, PenumbraFile>,
    opt: Seq<char>,
    subopt: Seq<char>,
)
    requires
        before.has_scope(s),
        changed_at(before, after, s, files),
    ensures
        after.has_scope(s),
        after.scope(opt, subopt) == before.scope(opt, subopt),
{
    match s {
        Place::Top => {},
        Place::Sub { option, suboption } => {
            let bg = before.options@[option].group()->Some_0;
            let ag = after.options@[option].group()->Some_0;
            assert(ag.names() =~= bg.names()) by {
                assert forall|l: int| 0 <= l < bg.names().len() implies ag.names()[l]
                    == bg.names()[l] by {
                    if l != suboption {
                        assert(ag.options@[l] == bg.options@[l]);
                    }
                }
            }
            assert(after.names() =~= before.names()) by {
                assert forall|k: int| 0 <= k < before.names().len() implies after.names()[k]
                    == before.names()[k] by {
                    if k != option {
                        assert(after.options@[k] == before.options@[k]);
                    }
                }
            }
            if opt.len() != 0 {
                if let Some(i) = first_index(before.names(), opt) {
                    assert(is_first(before.names(), opt, i));
                    if i != option {
                        assert(after.options@[i] == before.options@[i]);
                    }
                }
            }
        },
    }
}

/// After an override was set, a lookup under the same names and path gives it.
pub proof fn lookup_gives_what_was_set(
    before: Config,
    after: Config,
    opt: Seq<char>,
    subopt: Seq<char>,
    path: Seq<char>,
    file: PenumbraFile,
)
    requires
        before.scope(opt, subopt) matches Ok(s) && changed_at(
            before,
            after,
            s,
            before.files_at(s).insert(path, file),
        ),
    ensures
        after.lookup(opt, subopt, path) == Ok::<PenumbraFile, LookupError>(file),
{
    let s = before.scope(opt, subopt)->Ok_0;
    addressed_scope_exists(before, opt, subopt);
    scopes_are_kept(before, after, s, before.files_at(s).insert(path, file), opt, subopt);
}

/// After an override was cleared, a lookup under the same names and path finds
/// nothing, whether or not there was one before.
pub proof fn lookup_misses_what_was_cleared(
    before: Config,
    after: Config,
    opt: Seq<char>,
    subopt: Seq<char>,
    path: Seq<char>,
)
    requires
        before.scope(opt, subopt) matches Ok(s) && changed_at(
            before,
            after,
            s,
            before.files_at(s).remove(path),
        ),
    ensures
        after.lookup(opt, subopt, path) == Err::<PenumbraFile, LookupError>(
            LookupError::UnknownPath,
        ),
{
    let s = before.scope(opt, subopt)->Ok_0;
    addressed_scope_exists(before, opt, subopt);
    scopes_are_kept(before, after, s, before.files_at(s).remove(path), opt, subopt);
}

/// The overrides of a scope are the same in `files` as in `kept` but at `path`.
pub open spec fn same_but_at(
    files: Map<Seq<char>, PenumbraFile>,
    kept: Map<Seq<char>, PenumbraFile>,
    path: Seq<char>,
) -> bool {
    forall|p: Seq<char>|
        p != path ==> (files.contains_key(p) <==> kept.contains_key(p)) && (files.contains_key(p)
            ==> files[p] == kept[p])
}

/// A change at one path of one scope is seen by no lookup in another scope, and
/// by none at another path.
pub proof fn other_lookups_are_kept(
    before: Config,
    after: Config,
    s: Place,
    path: Seq<char>,
    files: Map<Seq<char>, PenumbraFile>,
    opt: Seq<char>,
    subopt: Seq<char>,
    other: Seq<char>,
)
    requires
        before.has_scope(s),
        changed_at(before, after, s, files),
        same_but_at(files, before.files_at(s), path),
        before.scope(opt, subopt) != Ok::<Place, LookupError>(s) || other != path,
    ensures
        after.lookup(opt, subopt, other) == before.lookup(opt, subopt, other),
{
    scopes_are_kept(before, after, s, files, opt, subopt);
    if let Ok(t) = before.scope(opt, subopt) {
        addressed_scope_exists(before, opt, subopt);
        if t != s {
            match (s, t) {
                (Place::Sub { option, suboption }, Place::Sub { option: o, suboption: j }) => {
                    if o == option {
                        assert(after.options@[option].group()->Some_0.options@[j]
                            == before.options@[option].group()->Some_0.options@[j]);
                    } else {
                        assert(after.options@[o] == before.options@[o]);
                    }
                },
                _ => {},
            }
        }
    }
}

} // verus!
