use vstd::prelude::*;

use vstd::string::StringSliceAdditionalSpecFns;
use vstd::utf8::{decode_utf8, encode_utf8, is_char_boundary, valid_utf8};

use crate::models::{Action, Label};

verus! {

/// Relies on `String::push`, which appends one character.
#[verifier::external_body]
fn push_char(s: &mut String, c: char)
    ensures
        final(s)@ == old(s)@.push(c),
{
    s.push(c)
}

/// A tab, newline or carriage return becomes a space, so that a field stays on its
/// line and in its column.
pub open spec fn field_char(c: char) -> char {
    if c == '\t' || c == '\n' || c == '\r' {
        ' '
    } else {
        c
    }
}

/// `s` with every tab, newline and carriage return replaced by a space.
pub fn sanitize_field(s: &str) -> (r: String)
    ensures
        r@ == s@.map_values(|c: char| field_char(c)),
{
    let n = s.unicode_len();
    let mut out = String::new();
    let mut i: usize = 0;
    while i < n
        invariant
            n == s@.len(),
            0 <= i <= n,
            out@ == s@.subrange(0, i as int).map_values(|c: char| field_char(c)),
        decreases n - i,
    {
        let c = s.get_char(i);
        let d = if c == '\t' || c == '\n' || c == '\r' {
            ' '
        } else {
            c
        };
        push_char(&mut out, d);
        assert(out@ =~= s@.subrange(0, i + 1).map_values(|c: char| field_char(c)));
        i = i + 1;
    }
    assert(s@.subrange(0, n as int) =~= s@);
    out
}

/// An ISO 8601 timestamp shown as `YYYY-MM-DD HH:MM`: its first ten bytes, a space,
/// and the five bytes after the `T`. Text where bytes 10, 11 and 16 are not all
/// character boundaries, such as text shorter than sixteen bytes, is shown unchanged.
pub open spec fn comment_date(d: Seq<char>) -> Seq<char> {
    let b = encode_utf8(d);
    if is_char_boundary(b, 10) && is_char_boundary(b, 11) && is_char_boundary(b, 16) {
        decode_utf8(b.subrange(0, 10)) + " "@ + decode_utf8(b.subrange(11, 16))
    } else {
        d
    }
}

/// Shows an ISO 8601 timestamp as `YYYY-MM-DD HH:MM`.
pub fn format_comment_date(iso_date: &str) -> (r: String)
    ensures
        r@ == comment_date(iso_date@),
{
    broadcast use vstd::utf8::group_utf8_lib;

    if iso_date.is_char_boundary(10) && iso_date.is_char_boundary(11) && iso_date.is_char_boundary(
        16,
    ) {
        let ghost b = iso_date.spec_bytes();
        let (date_part, _) = iso_date.split_at(10);
        let (first, _) = iso_date.split_at(16);
        proof {
            vstd::utf8::encode_utf8_valid_utf8(iso_date@);
            vstd::utf8::valid_utf8_split(b, 16);
            assert(first.spec_bytes() =~= b.subrange(0, 16));
            assert(first.spec_bytes()[11] == b[11]);
            vstd::utf8::is_char_boundary_iff_not_is_continuation_byte(b, 11);
            vstd::utf8::is_char_boundary_iff_not_is_continuation_byte(first.spec_bytes(), 11);
            assert(is_char_boundary(first.spec_bytes(), 11));
        }
        let (_, time_part) = first.split_at(11);
        proof {
            assert(time_part.spec_bytes() =~= b.subrange(11, 16));
            assert(date_part@ == decode_utf8(date_part.spec_bytes()));
            assert(time_part@ == decode_utf8(time_part.spec_bytes()));
        }
        let mut s = String::from_str(date_part);
        s.append(" ");
        s.append(time_part);
        s
    } else {
        String::from_str(iso_date)
    }
}

/// A comment as it is shown: when, by whom, and what.
#[derive(Debug)]
pub struct CommentInfo {
    pub date: String,
    pub author: String,
    pub text: String,
}

/// Who wrote an action: the member's full name, or else the user name.
pub open spec fn author_of(a: Action) -> Seq<char> {
    match a.member_creator.full_name {
        Some(n) => n@,
        None => a.member_creator.username@,
    }
}

/// The comment that an action carries, as it is shown.
pub open spec fn shown_comment(a: Action, c: CommentInfo) -> bool {
    c.date@ == comment_date(a.date@) && c.author@ == author_of(a) && c.text@ == a.data.text@
}

/// The comment that an action carries, as it is shown.
pub fn comment_info(a: &Action) -> (r: CommentInfo)
    ensures
        shown_comment(*a, r),
{
    let author = match &a.member_creator.full_name {
        Some(n) => n.clone(),
        None => a.member_creator.username.clone(),
    };
    CommentInfo { date: format_comment_date(a.date.as_str()), author, text: a.data.text.clone() }
}

/// The comments of actions listed newest first, shown oldest first.
pub fn comments_oldest_first(actions: &[Action]) -> (r: Vec<CommentInfo>)
    ensures
        r@.len() == actions@.len(),
        forall|i: int| 0 <= i < r@.len() ==> shown_comment(actions@[actions@.len() - 1 - i], #[trigger] r@[i]),
{
    let mut out: Vec<CommentInfo> = Vec::new();
    let mut k: usize = actions.len();
    while k > 0
        invariant
            0 <= k <= actions@.len(),
            out@.len() == actions@.len() - k,
            forall|i: int| 0 <= i < out@.len() ==> shown_comment(actions@[actions@.len() - 1 - i], #[trigger] out@[i]),
        decreases k,
    {
        k = k - 1;
        out.push(comment_info(&actions[k]));
    }
    out
}

/// Whether the card carries the label: its identifiers hold the label's.
pub open spec fn carries(id_labels: Seq<String>, l: Label) -> bool {
    exists|j: int| 0 <= j < id_labels.len() && #[trigger] id_labels[j]@ == l.id@
}

/// How a label is shown: by name with its color in parentheses; by color alone
/// where it has no name; `(no color)` where it has neither.
pub open spec fn label_text_of(name: Seq<char>, color: Option<Seq<char>>) -> Seq<char> {
    match color {
        Some(c) => if name.len() > 0 {
            name + " ("@ + c + ")"@
        } else {
            "("@ + c + ")"@
        },
        None => if name.len() > 0 {
            name
        } else {
            "(no color)"@
        },
    }
}

/// How a label is shown.
pub fn label_text(name: &str, color: Option<&str>) -> (r: String)
    ensures
        r@ == label_text_of(name@, match color {
            Some(c) => Some(c@),
            None => None,
        }),
{
    let named = name.unicode_len() > 0;
    match color {
        Some(c) => {
            let mut s = if named {
                let mut t = String::from_str(name);
                t.append(" (");
                t
            } else {
                String::from_str("(")
            };
            s.append(c);
            s.append(")");
            s
        },
        None => if named {
            String::from_str(name)
        } else {
            String::from_str("(no color)")
        },
    }
}

/// The labels of the board that the card carries, in the board's order.
pub open spec fn labels_carried(board_labels: Seq<Label>, id_labels: Seq<String>) -> Seq<Label>
    decreases board_labels.len(),
{
    if board_labels.len() == 0 {
        Seq::empty()
    } else {
        let rest = labels_carried(board_labels.drop_last(), id_labels);
        if carries(id_labels, board_labels.last()) {
            rest.push(board_labels.last())
        } else {
            rest
        }
    }
}

fn copy_label(l: &Label) -> (r: Label)
    ensures
        r == *l,
{
    let color = match &l.color {
        Some(c) => Some(c.clone()),
        None => None,
    };
    Label { id: l.id.clone(), name: l.name.clone(), color }
}

/// The labels of the board that a card with the label identifiers `id_labels` carries.
pub fn labels_on_card(board_labels: &[Label], id_labels: &[String]) -> (r: Vec<Label>)
    ensures
        r@ == labels_carried(board_labels@, id_labels@),
{
    let mut out: Vec<Label> = Vec::new();
    let mut i: usize = 0;
    while i < board_labels.len()
        invariant
            0 <= i <= board_labels@.len(),
            out@ == labels_carried(board_labels@.subrange(0, i as int), id_labels@),
        decreases board_labels@.len() - i,
    {
        proof {
            let s = board_labels@.subrange(0, i + 1);
            assert(s.drop_last() =~= board_labels@.subrange(0, i as int));
            assert(s.last() == board_labels@[i as int]);
        }
        if crate::cards::has_label(id_labels, board_labels[i].id.as_str()) {
            out.push(copy_label(&board_labels[i]));
        }
        i = i + 1;
    }
    assert(board_labels@.subrange(0, board_labels@.len() as int) =~= board_labels@);
    out
}

} // verus!
