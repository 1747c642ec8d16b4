//! The identity shown in the status line: a hostname label and the machine's
//! primary address, resolved once. Both come from commands and files that
//! close what they give with a line end, which is dropped here.

use crate::text::{
    lemma_one_line_joined, lemma_without_line_end_is_prefix, one_line, strip_line_end,
    without_line_end,
};
use vstd::prelude::*;

verus! {

/// The hostname label by precedence: the user's override, else the name the
/// system reports, else the name in the system's hostname file, else nothing;
/// without the line ends that close it.
pub open spec fn preferred_hostname(
    override_label: Option<String>,
    system_name: Option<String>,
    file_name: Option<String>,
) -> Seq<char> {
    match (override_label, system_name, file_name) {
        (Some(label), _, _) => without_line_end(label@),
        (None, Some(name), _) => without_line_end(name@),
        (None, None, Some(name)) => without_line_end(name@),
        (None, None, None) => Seq::empty(),
    }
}

/// Picks the hostname label among the sources that could be read, in the
/// order override, system name, hostname file, and drops the line ends that
/// close it. A source that could not be read is `None`; with none left the
/// label is empty.
pub fn choose_hostname(
    override_label: Option<String>,
    system_name: Option<String>,
    file_name: Option<String>,
) -> (label: String)
    ensures
        label@ == preferred_hostname(override_label, system_name, file_name),
        without_line_end(label@) == label@,
{
    let label = match &override_label {
        Some(label) => String::from_str(strip_line_end(label.as_str())),
        None => match &system_name {
            Some(name) => String::from_str(strip_line_end(name.as_str())),
            None => match &file_name {
                Some(name) => String::from_str(strip_line_end(name.as_str())),
                None => String::new(),
            },
        },
    };
    proof {
        match (override_label, system_name, file_name) {
            (Some(text), _, _) => lemma_without_line_end_is_prefix(text@),
            (None, Some(text), _) => lemma_without_line_end_is_prefix(text@),
            (None, None, Some(text)) => lemma_without_line_end_is_prefix(text@),
            (None, None, None) => {},
        }
    }
    label
}

/// The address as the identity shows it: without the line ends that close
/// it, and blank where none could be found.
pub open spec fn shown_address(address: Option<&str>) -> Seq<char> {
    match address {
        Some(a) => without_line_end(a@),
        None => Seq::empty(),
    }
}

/// The identity string: hostname, a space, address, each without the line
/// ends that close it.
pub open spec fn identity_text(hostname: Seq<char>, address: Option<&str>) -> Seq<char> {
    without_line_end(hostname) + " "@ + shown_address(address)
}

/// The identity is a single line wherever hostname and address, their closing
/// line ends dropped, hold no line break.
pub proof fn lemma_identity_is_one_line(hostname: Seq<char>, address: Option<&str>)
    requires
        one_line(without_line_end(hostname)),
        one_line(shown_address(address)),
    ensures
        one_line(identity_text(hostname, address)),
{
    reveal_strlit(" ");
    lemma_one_line_joined(without_line_end(hostname), " "@);
    lemma_one_line_joined(without_line_end(hostname) + " "@, shown_address(address));
}

/// Joins the hostname label and the primary address into the identity shown
/// in the status line, each without the line ends that close it.
pub fn ip_and_hostname(hostname: &str, address: Option<&str>) -> (identity: String)
    ensures
        identity@ == identity_text(hostname@, address),
        one_line(without_line_end(hostname@)) && one_line(shown_address(address)) ==> one_line(
            identity@,
        ),
{
    let mut identity = String::from_str(strip_line_end(hostname));
    identity.append(" ");
    match address {
        Some(a) => identity.append(strip_line_end(a)),
        None => {},
    }
    proof {
        if one_line(without_line_end(hostname@)) && one_line(shown_address(address)) {
            lemma_identity_is_one_line(hostname@, address);
        }
    }
    identity
}

} // verus!
