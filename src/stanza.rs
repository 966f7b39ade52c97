//! The control stanza of an archive, as debpkg parses it, turned into the
//! library's own `ControlMap`.

use vstd::prelude::*;

use crate::error::IngestError;
use crate::record::{fields_model, opt_text, texts, ControlMap};
use crate::tags::{tag_name, ControlTag};
use crate::text::same_name;

verus! {

#[verifier::external_type_specification]
#[verifier::external_body]
pub struct ExControl(debpkg::Control);

#[verifier::external_type_specification]
#[verifier::external_body]
pub struct ExDebError(debpkg::Error);

/// No two field names of `fs` are equal but for ASCII letter case.
pub open spec fn names_distinct(fs: Seq<(Seq<char>, Seq<char>)>) -> bool {
    forall|i: int, j: int|
        0 <= i < fs.len() && 0 <= j < fs.len() && i != j ==> !same_name(
            #[trigger] fs[i].0,
            #[trigger] fs[j].0,
        )
}

/// The fields of a parsed stanza in the order they were written: each name
/// as written, with the value that a lookup of that name gives (for
/// `Description`, its first line).
pub uninterp spec fn stanza_fields(c: debpkg::Control) -> Seq<(Seq<char>, Seq<char>)>;

/// The continuation lines of a parsed stanza's `Description`, trimmed and
/// joined by newlines, where there are any.
pub uninterp spec fn stanza_long_description(c: debpkg::Control) -> Option<Seq<char>>;

/// The fields and the long description of the stanza that some bytes hold,
/// as debpkg parses them.
pub uninterp spec fn parsed_stanza(bytes: Seq<u8>) -> (
    Seq<(Seq<char>, Seq<char>)>,
    Option<Seq<char>>,
);

/// Whether debpkg accepts some bytes as a stanza.
pub uninterp spec fn stanza_accepted(bytes: Seq<u8>) -> bool;

/// Whether some field of `fs` is called `name`, but for ASCII case.
pub open spec fn has_field(fs: Seq<(Seq<char>, Seq<char>)>, name: Seq<char>) -> bool {
    exists|i: int| 0 <= i < fs.len() && same_name(#[trigger] fs[i].0, name)
}

/// Relies on debpkg's `Control::parse`: parses the stanza text from bytes,
/// which alone decide whether it is accepted and what it holds. A stanza it
/// accepts has fields called `Package` and `Version` (but for ASCII case) and
/// never holds two fields whose names differ only in ASCII case (such a
/// second field is refused as an invalid control file).
#[verifier::external_body]
fn parse_stanza(bytes: &[u8]) -> (r: Result<debpkg::Control, debpkg::Error>)
    ensures
        r is Ok <==> stanza_accepted(bytes@),
        r matches Ok(c) ==> has_field(stanza_fields(c), tag_name(ControlTag::Package))
            && has_field(stanza_fields(c), tag_name(ControlTag::Version)),
        r matches Ok(c) ==> names_distinct(stanza_fields(c)) && parsed_stanza(bytes@) == (
            stanza_fields(c),
            stanza_long_description(c),
        ),
{
    debpkg::Control::parse(bytes)
}

/// Relies on debpkg's `Control::tags`: the field names, as written, in the
/// order of the stanza.
#[verifier::external_body]
fn stanza_tags(c: &debpkg::Control) -> (r: Vec<String>)
    ensures
        texts(r@) == stanza_fields(*c).map_values(|f: (Seq<char>, Seq<char>)| f.0),
{
    c.tags().map(|t| t.to_string()).collect()
}

/// Relies on debpkg's `Control::get`: the value of the field whose name
/// equals `name` but for ASCII case.
#[verifier::external_body]
fn stanza_get(c: &debpkg::Control, name: &str) -> (r: Option<String>)
    ensures
        (match r {
            Some(v) => exists|i: int|
                0 <= i < stanza_fields(*c).len() && same_name(
                    #[trigger] stanza_fields(*c)[i].0,
                    name@,
                ) && stanza_fields(*c)[i].1 == v@,
            None => forall|i: int|
                0 <= i < stanza_fields(*c).len() ==> !same_name(
                    #[trigger] stanza_fields(*c)[i].0,
                    name@,
                ),
        }),
{
    c.get(name).map(|v| v.to_string())
}

/// Relies on debpkg's `Control::long_description`.
#[verifier::external_body]
fn stanza_long(c: &debpkg::Control) -> (r: Option<String>)
    ensures
        opt_text(r) == stanza_long_description(*c),
{
    c.long_description().map(|v| v.to_string())
}

/// What debpkg refused a stanza for, as far as the record cares.
pub enum StanzaFault {
    MissingPackage,
    MissingVersion,
    Malformed,
}

/// Relies on debpkg's `Error`: tells its variants for a missing package name
/// and a missing version apart from the rest.
#[verifier::external_body]
fn stanza_fault(e: &debpkg::Error) -> (r: StanzaFault) {
    match e {
        debpkg::Error::MissingPackageName => StanzaFault::MissingPackage,
        debpkg::Error::MissingPackageVersion => StanzaFault::MissingVersion,
        _ => StanzaFault::Malformed,
    }
}

/// Relies on the `Display` of debpkg's `Error`: its message.
#[verifier::external_body]
fn fault_message(e: &debpkg::Error) -> (r: String) {
    e.to_string()
}

/// The fields of a parsed stanza, its long description and the given file
/// list, as a `ControlMap`.
fn control_map_of(c: &debpkg::Control, files: Vec<String>) -> (r: ControlMap)
    requires
        names_distinct(stanza_fields(*c)),
    ensures
        fields_model(r.fields@) == stanza_fields(*c),
        opt_text(r.long_description) == stanza_long_description(*c),
        r.files@ == files@,
{
    let ghost fs = stanza_fields(*c);
    let tags = stanza_tags(c);
    assert(tags@.len() == fs.len()) by {
        assert(texts(tags@).len() == tags@.len());
    }
    let mut fields: Vec<(String, String)> = Vec::new();
    let mut i: usize = 0;
    while i < tags.len()
        invariant
            fs == stanza_fields(*c),
            names_distinct(fs),
            texts(tags@) == fs.map_values(|f: (Seq<char>, Seq<char>)| f.0),
            tags@.len() == fs.len(),
            i <= tags@.len(),
            fields_model(fields@) == fs.subrange(0, i as int),
        decreases tags@.len() - i,
    {
        let name = tags[i].clone();
        assert(name@ == fs[i as int].0) by {
            assert(texts(tags@)[i as int] == tags@[i as int]@);
        }
        assert(same_name(fs[i as int].0, name@));
        let value = match stanza_get(c, name.as_str()) {
            Some(v) => {
                proof {
                    let j = choose|j: int|
                        0 <= j < fs.len() && same_name(#[trigger] fs[j].0, name@) && fs[j].1
                            == v@;
                    assert(j == i);
                }
                v
            },
            None => {
                proof {
                    assert(!same_name(fs[i as int].0, name@));
                }
                String::new()
            },
        };
        let ghost before = fields_model(fields@);
        fields.push((name, value));
        assert(fields_model(fields@) =~= before.push(fs[i as int]));
        assert(fs.subrange(0, i + 1) =~= fs.subrange(0, i as int).push(fs[i as int]));
        i = i + 1;
    }
    assert(fs.subrange(0, fs.len() as int) =~= fs);
    ControlMap { fields, long_description: stanza_long(c), files }
}

/// Parses the stanza text of an archive and pairs it with the archive's file
/// list. It succeeds exactly when debpkg accepts the stanza. Where debpkg
/// refuses it, a missing `Package` or `Version`
/// field is reported as such and anything else as a malformed archive; where
/// it accepts it, the map holds the stanza's fields in order, its long
/// description and the file list.
pub fn read_control(bytes: &[u8], files: Vec<String>) -> (r: Result<ControlMap, IngestError>)
    ensures
        r is Ok <==> stanza_accepted(bytes@),
        (match r {
            Ok(cm) => {
                &&& parsed_stanza(bytes@) == (
                    fields_model(cm.fields@),
                    opt_text(cm.long_description),
                )
                &&& names_distinct(fields_model(cm.fields@))
                &&& has_field(fields_model(cm.fields@), tag_name(ControlTag::Package))
                &&& has_field(fields_model(cm.fields@), tag_name(ControlTag::Version))
                &&& cm.files@ == files@
            },
            Err(e) => e is MissingRequiredField || e is MalformedArchive,
        }),
{
    match parse_stanza(bytes) {
        Ok(c) => Ok(control_map_of(&c, files)),
        Err(e) => match stanza_fault(&e) {
            StanzaFault::MissingPackage => Err(
                IngestError::MissingRequiredField(ControlTag::Package.field_name().to_string()),
            ),
            StanzaFault::MissingVersion => Err(
                IngestError::MissingRequiredField(ControlTag::Version.field_name().to_string()),
            ),
            StanzaFault::Malformed => Err(IngestError::MalformedArchive(fault_message(&e))),
        },
    }
}

} // verus!
