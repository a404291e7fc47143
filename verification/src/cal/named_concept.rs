//! Every concept that is found by a name keeps its objects under a path
//! that is built from a path hint, the name and a suffix. This module holds
//! that rule, its inverse and the failures of the management operations
//! that all named concepts share.

use vstd::prelude::*;

verus! {

/// Failures when asking whether a named concept exists.
#[derive(Debug, Clone, Copy, Eq, Hash, PartialEq)]
pub enum NamedConceptDoesExistError {
    InsufficientPermissions,
    UnderlyingResourcesBeingSetUp,
    UnderlyingResourcesCorrupted,
    InternalError,
}

/// Failures when removing a named concept.
#[derive(Debug, Clone, Copy, Eq, Hash, PartialEq)]
pub enum NamedConceptRemoveError {
    InsufficientPermissions,
    InternalError,
}

/// Failures when listing the named concepts of one kind.
#[derive(Debug, Clone, Copy, Eq, Hash, PartialEq)]
pub enum NamedConceptListError {
    InsufficientPermissions,
    InternalError,
}

/// True if `name` is one of `names`.
pub open spec fn lists_name(names: Seq<Vec<u8>>, name: Seq<u8>) -> bool {
    exists|i: int| 0 <= i < names.len() && (#[trigger] names[i])@ == name
}

/// The byte that separates the entries of a path.
pub const PATH_SEPARATOR: u8 = 47;

/// The path hint as a prefix: it ends with a separator unless it is empty.
pub open spec fn spec_path_prefix(path_hint: Seq<u8>) -> Seq<u8> {
    if path_hint.len() == 0 || path_hint.last() == PATH_SEPARATOR {
        path_hint
    } else {
        path_hint.push(PATH_SEPARATOR)
    }
}

/// The full path of the object with the name `value`: the path hint, a
/// separator where one is needed, the name and the suffix.
pub open spec fn spec_path_for(path_hint: Seq<u8>, suffix: Seq<u8>, value: Seq<u8>) -> Seq<u8> {
    spec_path_prefix(path_hint) + value + suffix
}

/// The name of a file without the suffix, if the file name ends with it.
pub open spec fn spec_extract_name_from_file(suffix: Seq<u8>, file: Seq<u8>) -> Option<Seq<u8>> {
    if suffix.len() <= file.len() && file.subrange(file.len() - suffix.len(), file.len() as int)
        == suffix {
        Some(file.subrange(0, file.len() - suffix.len()))
    } else {
        None
    }
}

/// The name of the object at a full path, if the path lies under the path
/// hint and ends with the suffix.
pub open spec fn spec_extract_name_from_path(
    path_hint: Seq<u8>,
    suffix: Seq<u8>,
    path: Seq<u8>,
) -> Option<Seq<u8>> {
    let prefix = spec_path_prefix(path_hint);
    if prefix.len() <= path.len() && path.subrange(0, prefix.len() as int) == prefix {
        spec_extract_name_from_file(suffix, path.subrange(prefix.len() as int, path.len() as int))
    } else {
        None
    }
}

/// Extracting the name from the path that was built for it yields the name
/// again, and a path from which a name can be extracted was built for that
/// name. Different names therefore have different paths.
pub proof fn lemma_path_for_is_inverse_of_extract(
    path_hint: Seq<u8>,
    suffix: Seq<u8>,
    value: Seq<u8>,
    path: Seq<u8>,
)
    ensures
        spec_extract_name_from_path(path_hint, suffix, spec_path_for(path_hint, suffix, value))
            == Some(value),
        spec_extract_name_from_path(path_hint, suffix, path) == Some(value) ==> path
            == spec_path_for(path_hint, suffix, value),
{
    let prefix = spec_path_prefix(path_hint);
    let built = spec_path_for(path_hint, suffix, value);
    assert(built.subrange(0, prefix.len() as int) =~= prefix);
    let file = built.subrange(prefix.len() as int, built.len() as int);
    assert(file =~= value + suffix);
    assert(file.subrange(file.len() - suffix.len(), file.len() as int) =~= suffix);
    assert(file.subrange(0, file.len() - suffix.len()) =~= value);
    if spec_extract_name_from_path(path_hint, suffix, path) == Some(value) {
        let rest = path.subrange(prefix.len() as int, path.len() as int);
        assert(path =~= prefix + rest);
        assert(rest =~= rest.subrange(0, rest.len() - suffix.len()) + rest.subrange(
            rest.len() - suffix.len(),
            rest.len() as int,
        ));
        assert(path =~= prefix + value + suffix);
    }
}

/// Different names have different paths under the same path hint and
/// suffix.
pub proof fn lemma_path_for_is_injective(
    path_hint: Seq<u8>,
    suffix: Seq<u8>,
    first: Seq<u8>,
    second: Seq<u8>,
)
    requires
        spec_path_for(path_hint, suffix, first) == spec_path_for(path_hint, suffix, second),
    ensures
        first == second,
{
    lemma_path_for_is_inverse_of_extract(path_hint, suffix, first, Seq::empty());
    lemma_path_for_is_inverse_of_extract(path_hint, suffix, second, Seq::empty());
}

fn append(target: &mut Vec<u8>, bytes: &Vec<u8>)
    ensures
        final(target)@ == old(target)@ + bytes@,
{
    let mut i: usize = 0;
    while i < bytes.len()
        invariant
            i <= bytes.len(),
            target@ == old(target)@ + bytes@.subrange(0, i as int),
        decreases bytes.len() - i,
    {
        target.push(bytes[i]);
        assert(target@ =~= old(target)@ + bytes@.subrange(0, i + 1));
        i += 1;
    }
    assert(bytes@.subrange(0, i as int) =~= bytes@);
}

fn copy_range(bytes: &Vec<u8>, from: usize, to: usize) -> (copy: Vec<u8>)
    requires
        from <= to <= bytes.len(),
    ensures
        copy@ == bytes@.subrange(from as int, to as int),
{
    let mut copy: Vec<u8> = Vec::new();
    let mut i: usize = from;
    while i < to
        invariant
            from <= i <= to <= bytes.len(),
            copy@ == bytes@.subrange(from as int, i as int),
        decreases to - i,
    {
        copy.push(bytes[i]);
        assert(copy@ =~= bytes@.subrange(from as int, i + 1));
        i += 1;
    }
    copy
}

fn has_bytes_at(bytes: &Vec<u8>, at: usize, expected: &Vec<u8>) -> (matches: bool)
    requires
        at + expected.len() <= bytes.len(),
    ensures
        matches == (bytes@.subrange(at as int, at + expected.len()) == expected@),
{
    let mut i: usize = 0;
    while i < expected.len()
        invariant
            at + expected.len() <= bytes.len(),
            i <= expected.len(),
            forall|k: int| 0 <= k < i ==> bytes[at + k] == expected[k],
        decreases expected.len() - i,
    {
        if bytes[at + i] != expected[i] {
            assert(bytes@.subrange(at as int, at + expected.len())[i as int] != expected@[i as int]);
            return false;
        }
        i += 1;
    }
    assert(bytes@.subrange(at as int, at + expected.len()) =~= expected@);
    true
}

/// Returns the path hint as a prefix: with a separator at its end unless
/// it is empty.
pub fn path_prefix(path_hint: &Vec<u8>) -> (prefix: Vec<u8>)
    ensures
        prefix@ == spec_path_prefix(path_hint@),
{
    let mut prefix: Vec<u8> = Vec::new();
    append(&mut prefix, path_hint);
    assert(prefix@ =~= path_hint@);
    if path_hint.len() > 0 && path_hint[path_hint.len() - 1] != PATH_SEPARATOR {
        prefix.push(PATH_SEPARATOR);
    }
    prefix
}

/// Returns the full path for a given name under the given path hint and
/// suffix.
pub fn path_for(path_hint: &Vec<u8>, suffix: &Vec<u8>, value: &Vec<u8>) -> (path: Vec<u8>)
    ensures
        path@ == spec_path_for(path_hint@, suffix@, value@),
{
    let mut path = path_prefix(path_hint);
    append(&mut path, value);
    append(&mut path, suffix);
    path
}

/// Extracts the name from a full path under the given path hint and
/// suffix. Returns [`None`] when the path does not lie under the path hint
/// or does not end with the suffix.
pub fn extract_name_from_path(path_hint: &Vec<u8>, suffix: &Vec<u8>, value: &Vec<u8>) -> (name:
    Option<Vec<u8>>)
    ensures
        name.is_some() == spec_extract_name_from_path(path_hint@, suffix@, value@).is_some(),
        name.is_some() ==> Some(name.unwrap()@) == spec_extract_name_from_path(
            path_hint@,
            suffix@,
            value@,
        ),
{
    let prefix = path_prefix(path_hint);
    if prefix.len() > value.len() || !has_bytes_at(value, 0, &prefix) {
        return None;
    }
    let file = copy_range(value, prefix.len(), value.len());
    extract_name_from_file(suffix, &file)
}

/// Extracts the name from a file name under the given suffix. Returns
/// [`None`] when the file name does not end with the suffix.
pub fn extract_name_from_file(suffix: &Vec<u8>, value: &Vec<u8>) -> (name: Option<Vec<u8>>)
    ensures
        name.is_some() == spec_extract_name_from_file(suffix@, value@).is_some(),
        name.is_some() ==> Some(name.unwrap()@) == spec_extract_name_from_file(suffix@, value@),
{
    if suffix.len() > value.len() {
        return None;
    }
    let stripped: usize = value.len() - suffix.len();
    if !has_bytes_at(value, stripped, suffix) {
        return None;
    }
    Some(copy_range(value, 0, stripped))
}

/// The configuration of a concept whose objects are found by their name:
/// where the objects are kept and how their files are named.
pub trait NamedConceptConfiguration: Sized {
    /// The suffix of the names of the files.
    spec fn suffix_bytes(&self) -> Seq<u8>;

    /// The path under which the files are kept.
    spec fn path_hint_bytes(&self) -> Seq<u8>;

    /// The suffix of the configuration that is used where none is given.
    spec fn default_suffix_bytes() -> Seq<u8>;

    /// The path hint of the configuration that is used where none is
    /// given.
    spec fn default_path_hint_bytes() -> Seq<u8>;

    /// Creates the configuration that is used where none is given.
    fn default_configuration() -> (config: Self)
        ensures
            config.suffix_bytes() == Self::default_suffix_bytes(),
            config.path_hint_bytes() == Self::default_path_hint_bytes(),
    ;

    /// Defines the suffix that the names of the files end with.
    fn suffix(self, value: Vec<u8>) -> (config: Self)
        ensures
            config.suffix_bytes() == value@,
            config.path_hint_bytes() == self.path_hint_bytes(),
    ;

    /// Sets the path under which the files are kept.
    fn path_hint(self, value: Vec<u8>) -> (config: Self)
        ensures
            config.path_hint_bytes() == value@,
            config.suffix_bytes() == self.suffix_bytes(),
    ;

    /// Returns the suffix.
    fn get_suffix(&self) -> (suffix: &Vec<u8>)
        ensures
            suffix@ == self.suffix_bytes(),
    ;

    /// Returns the path hint.
    fn get_path_hint(&self) -> (path_hint: &Vec<u8>)
        ensures
            path_hint@ == self.path_hint_bytes(),
    ;

    /// Returns the full path of the object with the given name.
    fn path_for(&self, value: &Vec<u8>) -> (path: Vec<u8>)
        ensures
            path@ == spec_path_for(self.path_hint_bytes(), self.suffix_bytes(), value@),
    {
        path_for(self.get_path_hint(), self.get_suffix(), value)
    }

    /// Extracts the name of an object from the full path of its file.
    /// Returns [`None`] when the path does not lie under the path hint or
    /// does not end with the suffix.
    fn extract_name_from_path(&self, value: &Vec<u8>) -> (name: Option<Vec<u8>>)
        ensures
            name.is_some() == spec_extract_name_from_path(
                self.path_hint_bytes(),
                self.suffix_bytes(),
                value@,
            ).is_some(),
            name.is_some() ==> Some(name.unwrap()@) == spec_extract_name_from_path(
                self.path_hint_bytes(),
                self.suffix_bytes(),
                value@,
            ),
    {
        extract_name_from_path(self.get_path_hint(), self.get_suffix(), value)
    }

    /// Extracts the name of an object from the name of its file. Returns
    /// [`None`] when the name of the file does not end with the suffix.
    fn extract_name_from_file(&self, value: &Vec<u8>) -> (name: Option<Vec<u8>>)
        ensures
            name.is_some() == spec_extract_name_from_file(self.suffix_bytes(), value@).is_some(),
            name.is_some() ==> Some(name.unwrap()@) == spec_extract_name_from_file(
                self.suffix_bytes(),
                value@,
            ),
    {
        extract_name_from_file(self.get_suffix(), value)
    }
}

/// An object that is found by its name.
pub trait NamedConcept {
    /// The name of the object.
    spec fn name_bytes(&self) -> Seq<u8>;

    /// Returns the name of the object.
    fn name(&self) -> (name: &Vec<u8>)
        ensures
            name@ == self.name_bytes(),
    ;
}

/// What can be done to the objects of a concept by their name. An object
/// is found by its name, the path hint and the suffix of a configuration.
pub trait NamedConceptMgmt {
    /// The configuration of the concept.
    type Configuration: NamedConceptConfiguration;

    /// What the objects live in.
    type Medium;

    /// What holds of the medium between the operations on it.
    spec fn medium_wf(medium: &Self::Medium) -> bool;

    /// True if there is an object with the given name, complete or not.
    spec fn is_present(
        name: Seq<u8>,
        path_hint: Seq<u8>,
        suffix: Seq<u8>,
        medium: &Self::Medium,
    ) -> bool;

    /// What asking whether the object with the given name exists comes to:
    /// whether a complete object of that name is present, or a failure
    /// while the object is being set up.
    spec fn does_exist_result(
        name: Seq<u8>,
        path_hint: Seq<u8>,
        suffix: Seq<u8>,
        medium: &Self::Medium,
    ) -> Result<bool, NamedConceptDoesExistError>;

    /// What listing the objects comes to.
    spec fn list_result(path_hint: Seq<u8>, suffix: Seq<u8>, medium: &Self::Medium) -> Result<
        (),
        NamedConceptListError,
    >;

    /// True if `names` are the names of the complete objects, each of them
    /// once.
    open spec fn lists(
        names: Seq<Vec<u8>>,
        path_hint: Seq<u8>,
        suffix: Seq<u8>,
        medium: &Self::Medium,
    ) -> bool {
        &&& forall|i: int|
            0 <= i < names.len() ==> Self::does_exist_result(
                #[trigger] names[i]@,
                path_hint,
                suffix,
                medium,
            ) == Ok::<bool, NamedConceptDoesExistError>(true)
        &&& forall|name: Seq<u8>|
            #[trigger] Self::does_exist_result(name, path_hint, suffix, medium) == Ok::<
                bool,
                NamedConceptDoesExistError,
            >(true) ==> lists_name(names, name)
        &&& forall|i: int, j: int|
            0 <= i < names.len() && 0 <= j < names.len() && i != j ==> names[i]@ != names[j]@
    }

    /// True if `after` is `before` without the object of the given name.
    spec fn is_without(
        name: Seq<u8>,
        path_hint: Seq<u8>,
        suffix: Seq<u8>,
        before: &Self::Medium,
        after: &Self::Medium,
    ) -> bool;

    /// Removes the object with the given name under the given
    /// configuration. Returns true if the object was present and false if
    /// it was not.
    fn remove_cfg(name: &Vec<u8>, cfg: &Self::Configuration, medium: &mut Self::Medium) -> (result:
        Result<bool, NamedConceptRemoveError>)
        requires
            Self::medium_wf(old(medium)),
        ensures
            Self::medium_wf(final(medium)),
            result == Ok::<bool, NamedConceptRemoveError>(
                Self::is_present(name@, cfg.path_hint_bytes(), cfg.suffix_bytes(), old(medium)),
            ),
            !Self::is_present(name@, cfg.path_hint_bytes(), cfg.suffix_bytes(), final(medium)),
            Self::is_without(
                name@,
                cfg.path_hint_bytes(),
                cfg.suffix_bytes(),
                old(medium),
                final(medium),
            ),
    ;

    /// Returns true if a complete object with the given name exists under
    /// the given configuration.
    fn does_exist_cfg(name: &Vec<u8>, cfg: &Self::Configuration, medium: &Self::Medium) -> (result:
        Result<bool, NamedConceptDoesExistError>)
        requires
            Self::medium_wf(medium),
        ensures
            result == Self::does_exist_result(
                name@,
                cfg.path_hint_bytes(),
                cfg.suffix_bytes(),
                medium,
            ),
    ;

    /// Returns the names of the complete objects under the given
    /// configuration, each of them once.
    fn list_cfg(cfg: &Self::Configuration, medium: &Self::Medium) -> (result: Result<
        Vec<Vec<u8>>,
        NamedConceptListError,
    >)
        requires
            Self::medium_wf(medium),
        ensures
            result.is_ok() == Self::list_result(
                cfg.path_hint_bytes(),
                cfg.suffix_bytes(),
                medium,
            ).is_ok(),
            match result {
                Ok(names) => Self::lists(
                    names@,
                    cfg.path_hint_bytes(),
                    cfg.suffix_bytes(),
                    medium,
                ),
                Err(error) => Err::<(), _>(error) == Self::list_result(
                    cfg.path_hint_bytes(),
                    cfg.suffix_bytes(),
                    medium,
                ),
            },
    ;

    /// Removes the object with the given name under the default
    /// configuration.
    fn remove(name: &Vec<u8>, medium: &mut Self::Medium) -> (result: Result<
        bool,
        NamedConceptRemoveError,
    >)
        requires
            Self::medium_wf(old(medium)),
        ensures
            Self::medium_wf(final(medium)),
            result == Ok::<bool, NamedConceptRemoveError>(
                Self::is_present(
                    name@,
                    Self::Configuration::default_path_hint_bytes(),
                    Self::Configuration::default_suffix_bytes(),
                    old(medium),
                ),
            ),
            !Self::is_present(
                name@,
                Self::Configuration::default_path_hint_bytes(),
                Self::Configuration::default_suffix_bytes(),
                final(medium),
            ),
            Self::is_without(
                name@,
                Self::Configuration::default_path_hint_bytes(),
                Self::Configuration::default_suffix_bytes(),
                old(medium),
                final(medium),
            ),
    {
        Self::remove_cfg(name, &Self::Configuration::default_configuration(), medium)
    }

    /// Returns true if a complete object with the given name exists under
    /// the default configuration.
    fn does_exist(name: &Vec<u8>, medium: &Self::Medium) -> (result: Result<
        bool,
        NamedConceptDoesExistError,
    >)
        requires
            Self::medium_wf(medium),
        ensures
            result == Self::does_exist_result(
                name@,
                Self::Configuration::default_path_hint_bytes(),
                Self::Configuration::default_suffix_bytes(),
                medium,
            ),
    {
        Self::does_exist_cfg(name, &Self::Configuration::default_configuration(), medium)
    }

    /// Returns the names of the complete objects under the default
    /// configuration.
    fn list(medium: &Self::Medium) -> (result: Result<Vec<Vec<u8>>, NamedConceptListError>)
        requires
            Self::medium_wf(medium),
        ensures
            result.is_ok() == Self::list_result(
                Self::Configuration::default_path_hint_bytes(),
                Self::Configuration::default_suffix_bytes(),
                medium,
            ).is_ok(),
            match result {
                Ok(names) => Self::lists(
                    names@,
                    Self::Configuration::default_path_hint_bytes(),
                    Self::Configuration::default_suffix_bytes(),
                    medium,
                ),
                Err(error) => Err::<(), _>(error) == Self::list_result(
                    Self::Configuration::default_path_hint_bytes(),
                    Self::Configuration::default_suffix_bytes(),
                    medium,
                ),
            },
    {
        Self::list_cfg(&Self::Configuration::default_configuration(), medium)
    }
}

/// Builds an object of a concept that is found by its name.
pub trait NamedConceptBuilder: Sized {
    /// The concept whose objects are built.
    type Concept: NamedConceptMgmt;

    /// The name of the object that is built.
    spec fn name_bytes(&self) -> Seq<u8>;

    /// The path under which the object is kept.
    spec fn path_hint_bytes(&self) -> Seq<u8>;

    /// The suffix of the name of the file of the object.
    spec fn suffix_bytes(&self) -> Seq<u8>;

    /// Starts to build the object with the given name under the default
    /// configuration.
    fn new(name: &Vec<u8>) -> (builder: Self)
        ensures
            builder.name_bytes() == name@,
            builder.path_hint_bytes() == <<Self::Concept as NamedConceptMgmt>::Configuration as NamedConceptConfiguration>::default_path_hint_bytes(),
            builder.suffix_bytes() == <<Self::Concept as NamedConceptMgmt>::Configuration as NamedConceptConfiguration>::default_suffix_bytes(),
    ;

    /// Sets the configuration under which the object is built.
    fn config(self, config: &<Self::Concept as NamedConceptMgmt>::Configuration) -> (builder: Self)
        ensures
            builder.name_bytes() == self.name_bytes(),
            builder.path_hint_bytes() == config.path_hint_bytes(),
            builder.suffix_bytes() == config.suffix_bytes(),
    ;
}

} // verus!
