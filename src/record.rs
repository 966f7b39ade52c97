//! Building one package record from the fields of its control stanza.

use vstd::prelude::*;

use crate::depends::{deps_model, parse_depends, parse_depends_spec, Dependency, DependencyModel};
use crate::error::{ErrorKind, IngestError};
use crate::tags::{tag_name, ControlTag};
use crate::text::{same_name, same_name_text};

verus! {

/// What was read out of one archive: the stanza's fields in order, the long
/// (continuation) part of the description where there is one, and the paths
/// that the data member lists.
#[derive(Clone, Debug)]
pub struct ControlMap {
    pub fields: Vec<(String, String)>,
    pub long_description: Option<String>,
    pub files: Vec<String>,
}

pub open spec fn opt_text(s: Option<String>) -> Option<Seq<char>> {
    match s {
        Some(x) => Some(x@),
        None => None,
    }
}

pub open spec fn texts(v: Seq<String>) -> Seq<Seq<char>> {
    v.map_values(|s: String| s@)
}

/// The fields of a stanza as pairs of name and value.
pub open spec fn fields_model(fs: Seq<(String, String)>) -> Seq<(Seq<char>, Seq<char>)> {
    fs.map_values(|p: (String, String)| (p.0@, p.1@))
}

/// The value of the last field called `name`.
pub open spec fn field_value(fs: Seq<(Seq<char>, Seq<char>)>, name: Seq<char>) -> Option<Seq<char>>
    decreases fs.len(),
{
    if fs.len() == 0 {
        None
    } else if fs.last().0 == name {
        Some(fs.last().1)
    } else {
        field_value(fs.drop_last(), name)
    }
}

/// The value of the last field called `name`, but for ASCII case.
pub open spec fn field_value_any_case(fs: Seq<(Seq<char>, Seq<char>)>, name: Seq<char>) -> Option<
    Seq<char>,
>
    decreases fs.len(),
{
    if fs.len() == 0 {
        None
    } else if same_name(fs.last().0, name) {
        Some(fs.last().1)
    } else {
        field_value_any_case(fs.drop_last(), name)
    }
}

/// One package, built from one archive.
#[derive(Clone, Debug)]
pub struct Package {
    pub name: String,
    pub version: String,
    pub source: Option<String>,
    pub architecture: Option<String>,
    pub maintainer: Option<String>,
    pub original_maintainer: Option<String>,
    pub replaces: Option<String>,
    pub section: Option<String>,
    pub multi_arch: Option<String>,
    pub homepage: Option<String>,
    pub description: Option<String>,
    pub files: Vec<String>,
    pub depends: Vec<Dependency>,
}

/// A package as mathematical values.
pub struct PackageModel {
    pub name: Seq<char>,
    pub version: Seq<char>,
    pub source: Option<Seq<char>>,
    pub architecture: Option<Seq<char>>,
    pub maintainer: Option<Seq<char>>,
    pub original_maintainer: Option<Seq<char>>,
    pub replaces: Option<Seq<char>>,
    pub section: Option<Seq<char>>,
    pub multi_arch: Option<Seq<char>>,
    pub homepage: Option<Seq<char>>,
    pub description: Option<Seq<char>>,
    pub files: Seq<Seq<char>>,
    pub depends: Seq<DependencyModel>,
}

impl View for Package {
    type V = PackageModel;

    open spec fn view(&self) -> PackageModel {
        PackageModel {
            name: self.name@,
            version: self.version@,
            source: opt_text(self.source),
            architecture: opt_text(self.architecture),
            maintainer: opt_text(self.maintainer),
            original_maintainer: opt_text(self.original_maintainer),
            replaces: opt_text(self.replaces),
            section: opt_text(self.section),
            multi_arch: opt_text(self.multi_arch),
            homepage: opt_text(self.homepage),
            description: opt_text(self.description),
            files: texts(self.files@),
            depends: deps_model(self.depends@),
        }
    }
}

/// The record that a stanza's fields, long description and file list make:
/// `Package` and `Version` are required, in that order, and found whatever
/// their ASCII case; the other fields are found by their exact name; `Depends`, where
/// present, must parse; the description is the long description where the
/// stanza has a `Description` field.
pub open spec fn package_spec(
    fs: Seq<(Seq<char>, Seq<char>)>,
    long: Option<Seq<char>>,
    files: Seq<Seq<char>>,
) -> Result<PackageModel, (ErrorKind, Seq<char>)> {
    let get = |t: ControlTag| field_value(fs, tag_name(t));
    let name = field_value_any_case(fs, tag_name(ControlTag::Package));
    let version = field_value_any_case(fs, tag_name(ControlTag::Version));
    if name is None {
        Err((ErrorKind::MissingRequiredField, tag_name(ControlTag::Package)))
    } else if version is None {
        Err((ErrorKind::MissingRequiredField, tag_name(ControlTag::Version)))
    } else {
        let deps = match get(ControlTag::Depends) {
            Some(line) => parse_depends_spec(line),
            None => Ok(Seq::empty()),
        };
        match deps {
            Err(e) => Err(e),
            Ok(d) => Ok(
                PackageModel {
                    name: name->0,
                    version: version->0,
                    source: get(ControlTag::Source),
                    architecture: get(ControlTag::Architecture),
                    maintainer: get(ControlTag::Maintainer),
                    original_maintainer: get(ControlTag::OriginalMaintainer),
                    replaces: get(ControlTag::Replaces),
                    section: get(ControlTag::Section),
                    multi_arch: get(ControlTag::MultiArch),
                    homepage: get(ControlTag::Homepage),
                    description: if get(ControlTag::Description) is Some {
                        long
                    } else {
                        None
                    },
                    files,
                    depends: d,
                },
            ),
        }
    }
}

impl ControlMap {
    /// The value of the last field that `tag` names.
    pub fn get(&self, tag: &ControlTag) -> (r: Option<String>)
        ensures
            opt_text(r) == field_value(fields_model(self.fields@), tag_name(*tag)),
    {
        let name = tag.field_name();
        let ghost fs = fields_model(self.fields@);
        let mut i = self.fields.len();
        assert(fs.subrange(0, i as int) =~= fs);
        while i > 0
            invariant
                i <= self.fields@.len(),
                fs == fields_model(self.fields@),
                name@ == tag_name(*tag),
                field_value(fs, name@) == field_value(fs.subrange(0, i as int), name@),
            decreases i,
        {
            let ghost pre = fs.subrange(0, i as int);
            assert(pre.drop_last() =~= fs.subrange(0, i - 1));
            if crate::text::same_text(self.fields[i - 1].0.as_str(), name) {
                return Some(self.fields[i - 1].1.clone());
            }
            i = i - 1;
        }
        None
    }
}

impl ControlMap {
    /// The value of the last field that `tag` names, but for ASCII case.
    pub fn get_any_case(&self, tag: &ControlTag) -> (r: Option<String>)
        ensures
            opt_text(r) == field_value_any_case(fields_model(self.fields@), tag_name(*tag)),
    {
        let name = tag.field_name();
        let ghost fs = fields_model(self.fields@);
        let mut i = self.fields.len();
        assert(fs.subrange(0, i as int) =~= fs);
        while i > 0
            invariant
                i <= self.fields@.len(),
                fs == fields_model(self.fields@),
                name@ == tag_name(*tag),
                field_value_any_case(fs, name@) == field_value_any_case(
                    fs.subrange(0, i as int),
                    name@,
                ),
            decreases i,
        {
            let ghost pre = fs.subrange(0, i as int);
            assert(pre.drop_last() =~= fs.subrange(0, i - 1));
            if same_name_text(self.fields[i - 1].0.as_str(), name) {
                return Some(self.fields[i - 1].1.clone());
            }
            i = i - 1;
        }
        None
    }
}

/// Builds the record of one archive from what was read out of it.
pub fn build_package(cm: ControlMap) -> (r: Result<Package, IngestError>)
    ensures
        (match r {
            Ok(p) => {
                &&& package_spec(
                    fields_model(cm.fields@),
                    opt_text(cm.long_description),
                    texts(cm.files@),
                ) == Ok::<PackageModel, (ErrorKind, Seq<char>)>(p@)
                &&& forall|i: int| 0 <= i < p.depends@.len() ==> #[trigger] p.depends@[i].wf()
            },
            Err(e) => package_spec(
                fields_model(cm.fields@),
                opt_text(cm.long_description),
                texts(cm.files@),
            ) == Err::<PackageModel, (ErrorKind, Seq<char>)>(e@),
        }),
{
    let ghost fs = fields_model(cm.fields@);
    let ghost long = opt_text(cm.long_description);
    let ghost files = texts(cm.files@);
    let name = match cm.get_any_case(&ControlTag::Package) {
        Some(v) => v,
        None => {
            return Err(
                IngestError::MissingRequiredField(
                    ControlTag::Package.field_name().to_string(),
                ),
            );
        },
    };
    let version = match cm.get_any_case(&ControlTag::Version) {
        Some(v) => v,
        None => {
            return Err(
                IngestError::MissingRequiredField(
                    ControlTag::Version.field_name().to_string(),
                ),
            );
        },
    };
    let ghost dl = field_value(fs, tag_name(ControlTag::Depends));
    let depends = match cm.get(&ControlTag::Depends) {
        Some(line) => match parse_depends(line.as_str()) {
            Ok(d) => {
                assert(parse_depends_spec(dl->0) == Ok::<
                    Seq<DependencyModel>,
                    (ErrorKind, Seq<char>),
                >(deps_model(d@)));
                d
            },
            Err(e) => {
                return Err(e);
            },
        },
        None => Vec::new(),
    };
    assert(dl is None ==> deps_model(depends@) =~= Seq::<DependencyModel>::empty());
    let source = cm.get(&ControlTag::Source);
    let architecture = cm.get(&ControlTag::Architecture);
    let maintainer = cm.get(&ControlTag::Maintainer);
    let original_maintainer = cm.get(&ControlTag::OriginalMaintainer);
    let replaces = cm.get(&ControlTag::Replaces);
    let section = cm.get(&ControlTag::Section);
    let multi_arch = cm.get(&ControlTag::MultiArch);
    let homepage = cm.get(&ControlTag::Homepage);
    let description = match cm.get(&ControlTag::Description) {
        Some(_) => cm.long_description,
        None => None,
    };
    let p = Package {
        name,
        version,
        source,
        architecture,
        maintainer,
        original_maintainer,
        replaces,
        section,
        multi_arch,
        homepage,
        description,
        files: cm.files,
        depends,
    };
    Ok(p)
}

} // verus!
