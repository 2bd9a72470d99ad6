//! Telling the parts of a multipart submission apart.

use crate::text::chars_of;
use vstd::prelude::*;

verus! {

/// What part a field of the submission plays.
#[derive(Clone, Copy, Debug, PartialEq, Eq, Structural)]
pub enum FieldRole {
    /// The JSON descriptor.
    Descriptor,
    /// A file.
    Attachment,
}

/// The name of the field that carries the JSON descriptor.
pub open spec fn descriptor_field() -> Seq<char> {
    seq!['j', 's', 'o', 'n']
}

/// The role of a field with the given name, or nothing for a field without
/// a name.
pub open spec fn role_spec(name: Option<Seq<char>>) -> Option<FieldRole> {
    match name {
        None => None,
        Some(n) => if n == descriptor_field() {
            Some(FieldRole::Descriptor)
        } else {
            Some(FieldRole::Attachment)
        },
    }
}

/// The view of an optional field name.
pub open spec fn name_view(name: Option<&str>) -> Option<Seq<char>> {
    match name {
        Some(n) => Some(n@),
        None => None,
    }
}

/// Tells the descriptor from the files by the field's name.
pub fn role_of(name: Option<&str>) -> (role: Option<FieldRole>)
    ensures
        role == role_spec(name_view(name)),
{
    match name {
        None => None,
        Some(n) => {
            let chars = chars_of(n);
            if chars.len() == 4 && chars[0] == 'j' && chars[1] == 's' && chars[2] == 'o'
                && chars[3] == 'n' {
                assert(n@ == descriptor_field());
                Some(FieldRole::Descriptor)
            } else {
                Some(FieldRole::Attachment)
            }
        },
    }
}

/// Puts the descriptor of a submission in its place. A submission carries
/// one descriptor; a second one is the client's error, and the caller has to
/// turn it down before it gets here.
pub fn keep_descriptor<T>(slot: &mut Option<T>, descriptor: T)
    requires
        *old(slot) is None,
    ensures
        *final(slot) == Some(descriptor),
{
    *slot = Some(descriptor);
}

} // verus!
