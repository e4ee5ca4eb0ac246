use vstd::prelude::*;

verus! {

/// The columns that a character takes on a terminal, as the Unicode width
/// tables give them; `None` for a control character.
pub uninterp spec fn width_of(c: char) -> Option<usize>;

/// Relies on `unicode_width::UnicodeWidthChar::width`: the displayed width
/// of `c`, a function of `c` alone. Printable ASCII takes one column, the
/// other characters below U+00A0 are control characters, and a width is
/// read from a table of bytes.
#[verifier::external_body]
pub(crate) fn char_width(c: char) -> (r: Option<usize>)
    ensures
        r == width_of(c),
        ' ' <= c && c < '\u{7f}' ==> r == Some(1usize),
        c < ' ' || ('\u{7f}' <= c && c < '\u{a0}') ==> r.is_none(),
        r matches Some(w) ==> w <= 255,
{
    unicode_width::UnicodeWidthChar::width(c)
}

/// Relies on `users::get_user_by_uid`: the name of the account with id
/// `uid`, if the system knows one. The answer depends on the system's user
/// database, so nothing is promised of it.
#[verifier::external_body]
pub(crate) fn user_name(uid: u32) -> (r: Option<String>) {
    users::get_user_by_uid(uid).map(|u| u.name().to_string_lossy().to_string())
}

/// Relies on `users::get_group_by_gid`: the name of the group with id
/// `gid`, if the system knows one. The answer depends on the system's group
/// database, so nothing is promised of it.
#[verifier::external_body]
pub(crate) fn group_name(gid: u32) -> (r: Option<String>) {
    users::get_group_by_gid(gid).map(|g| g.name().to_string_lossy().to_string())
}

/// Relies on `chrono::DateTime::from_timestamp`, `with_timezone(&Local)` and
/// `format`: the moment `secs` seconds after the Unix epoch, in the
/// machine's time zone, written after `pattern`; `None` where chrono cannot
/// represent that moment. The text depends on the time zone, so nothing is
/// promised of it. `pattern` is one of the two that the listing uses: chrono
/// panics while writing out a pattern that it cannot read.
#[verifier::external_body]
pub(crate) fn local_time_text(secs: i64, pattern: &str) -> (r: Option<String>)
    requires
        pattern@ == "%b %d %H:%M"@ || pattern@ == "%b %d  %Y"@,
{
    match chrono::DateTime::from_timestamp(secs, 0) {
        Some(t) => Some(t.with_timezone(&chrono::Local).format(pattern).to_string()),
        None => None,
    }
}

} // verus!
