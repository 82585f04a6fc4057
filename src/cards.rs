use vstd::prelude::*;

use crate::models::{Action, AddComment, AddLabel, ArchiveCard, Label};

verus! {

/// Whether two characters are equal once ASCII letters are taken in lower case.
pub open spec fn same_letter(a: char, b: char) -> bool {
    a == b || ('A' <= a <= 'Z' && b as u32 == a as u32 + 32) || ('A' <= b <= 'Z' && a as u32
        == b as u32 + 32)
}

/// Whether two texts are equal ignoring the case of ASCII letters.
pub open spec fn same_ignoring_ascii_case(a: Seq<char>, b: Seq<char>) -> bool {
    a.len() == b.len() && forall|i: int| 0 <= i < a.len() ==> same_letter(#[trigger] a[i], b[i])
}

/// Whether `a` and `b` are equal ignoring the case of ASCII letters, as
/// `str::eq_ignore_ascii_case` decides it.
pub fn eq_ignore_ascii_case(a: &str, b: &str) -> (r: bool)
    ensures
        r == same_ignoring_ascii_case(a@, b@),
{
    let n = a.unicode_len();
    if n != b.unicode_len() {
        return false;
    }
    let mut i: usize = 0;
    while i < n
        invariant
            n == a@.len(),
            n == b@.len(),
            0 <= i <= n,
            forall|j: int| 0 <= j < i ==> same_letter(#[trigger] a@[j], b@[j]),
        decreases n - i,
    {
        let x = a.get_char(i);
        let y = b.get_char(i);
        let same = x == y || ('A' <= x && x <= 'Z' && y as u32 == x as u32 + 32) || ('A' <= y && y
            <= 'Z' && x as u32 == y as u32 + 32);
        if !same {
            return false;
        }
        i = i + 1;
    }
    true
}

/// Why a label could not be applied or removed.
#[derive(Debug)]
pub enum LabelError {
    /// No label of the board has this name.
    NotFound { name: String },
}

impl LabelError {
    /// The error as text for the user.
    pub fn message(&self) -> (r: String)
        ensures
            r@ == (match self {
                LabelError::NotFound { name } => "Label '"@ + name@ + "' not found on board"@,
            }),
    {
        match self {
            LabelError::NotFound { name } => {
                let mut s = String::from_str("Label '");
                s.append(name.as_str());
                s.append("' not found on board");
                s
            },
        }
    }
}

/// The first label of the board whose name is `name`, ignoring ASCII case.
pub open spec fn first_label_named(labels: Seq<Label>, name: Seq<char>, i: int) -> bool {
    0 <= i < labels.len() && same_ignoring_ascii_case(labels[i].name@, name) && forall|j: int|
        0 <= j < i ==> !same_ignoring_ascii_case(#[trigger] labels[j].name@, name)
}

/// No label of the board is named `name`, ignoring ASCII case.
pub open spec fn no_label_named(labels: Seq<Label>, name: Seq<char>) -> bool {
    forall|j: int| 0 <= j < labels.len() ==> !same_ignoring_ascii_case(#[trigger] labels[j].name@, name)
}

/// Finds the first label of the board named `name`, ignoring ASCII case.
pub fn find_label(labels: &[Label], name: &str) -> (r: Option<usize>)
    ensures
        match r {
            Some(i) => first_label_named(labels@, name@, i as int),
            None => no_label_named(labels@, name@),
        },
{
    let mut i: usize = 0;
    while i < labels.len()
        invariant
            0 <= i <= labels@.len(),
            forall|j: int| 0 <= j < i ==> !same_ignoring_ascii_case(#[trigger] labels@[j].name@, name@),
        decreases labels@.len() - i,
    {
        if eq_ignore_ascii_case(labels[i].name.as_str(), name) {
            return Some(i);
        }
        i = i + 1;
    }
    None
}

/// Whether the card's label identifiers hold `id`.
pub fn has_label(card_labels: &[String], id: &str) -> (r: bool)
    ensures
        r == exists|j: int| 0 <= j < card_labels@.len() && #[trigger] card_labels@[j]@ == id@,
{
    let mut i: usize = 0;
    while i < card_labels.len()
        invariant
            0 <= i <= card_labels@.len(),
            forall|j: int| 0 <= j < i ==> #[trigger] card_labels@[j]@ != id@,
        decreases card_labels@.len() - i,
    {
        if crate::text::same_text(card_labels[i].as_str(), id) {
            return true;
        }
        i = i + 1;
    }
    false
}

/// What applying the label named `name` to a card that carries `card_labels` needs:
/// a request that adds the label, or nothing where the card already carries it. A
/// name that no label of the board has is an error.
pub fn label_to_add(card_labels: &[String], labels: &[Label], name: &str) -> (r: Result<Option<AddLabel>, LabelError>)
    ensures
        match r {
            Ok(add) => exists|i: int| #[trigger] first_label_named(labels@, name@, i) && match add {
                Some(body) => body.value@ == labels@[i].id@ && !(exists|j: int| 0 <= j < card_labels@.len() && #[trigger] card_labels@[j]@ == labels@[i].id@),
                None => exists|j: int| 0 <= j < card_labels@.len() && #[trigger] card_labels@[j]@ == labels@[i].id@,
            },
            Err(LabelError::NotFound { name: n }) => no_label_named(labels@, name@) && n@ == name@,
        },
{
    match find_label(labels, name) {
        None => Err(LabelError::NotFound { name: String::from_str(name) }),
        Some(i) => {
            let id = labels[i].id.as_str();
            if has_label(card_labels, id) {
                assert(first_label_named(labels@, name@, i as int));
                Ok(None)
            } else {
                assert(first_label_named(labels@, name@, i as int));
                Ok(Some(AddLabel { value: labels[i].id.clone() }))
            }
        },
    }
}

/// What removing the label named `name` from a card that carries `card_labels`
/// needs: the identifier of the label to take off, or nothing where the card does
/// not carry it. A name that no label of the board has is an error.
pub fn label_to_remove(card_labels: &[String], labels: &[Label], name: &str) -> (r: Result<Option<String>, LabelError>)
    ensures
        match r {
            Ok(rm) => exists|i: int| #[trigger] first_label_named(labels@, name@, i) && match rm {
                Some(id) => id@ == labels@[i].id@ && exists|j: int| 0 <= j < card_labels@.len() && #[trigger] card_labels@[j]@ == labels@[i].id@,
                None => !(exists|j: int| 0 <= j < card_labels@.len() && #[trigger] card_labels@[j]@ == labels@[i].id@),
            },
            Err(LabelError::NotFound { name: n }) => no_label_named(labels@, name@) && n@ == name@,
        },
{
    match find_label(labels, name) {
        None => Err(LabelError::NotFound { name: String::from_str(name) }),
        Some(i) => {
            let id = labels[i].id.as_str();
            assert(first_label_named(labels@, name@, i as int));
            if has_label(card_labels, id) {
                Ok(Some(labels[i].id.clone()))
            } else {
                Ok(None)
            }
        },
    }
}

/// The request that archives a card, unless it already is archived.
pub fn archive_change(closed: bool) -> (r: Option<ArchiveCard>)
    ensures
        closed ==> r is None,
        !closed ==> r is Some && r->Some_0.closed,
{
    if closed {
        None
    } else {
        Some(ArchiveCard { closed: true })
    }
}

/// The request that restores an archived card, unless it is not archived.
pub fn restore_change(closed: bool) -> (r: Option<ArchiveCard>)
    ensures
        !closed ==> r is None,
        closed ==> r is Some && !r->Some_0.closed,
{
    if closed {
        Some(ArchiveCard { closed: false })
    } else {
        None
    }
}

/// A white-space character, as `char::is_whitespace` defines it (the Unicode
/// `White_Space` property).
pub open spec fn is_white_space(c: char) -> bool {
    ('\u{9}' <= c <= '\u{d}') || c == ' ' || c == '\u{85}' || c == '\u{a0}' || c == '\u{1680}'
        || ('\u{2000}' <= c <= '\u{200a}') || c == '\u{2028}' || c == '\u{2029}' || c == '\u{202f}'
        || c == '\u{205f}' || c == '\u{3000}'
}

fn white_space(c: char) -> (r: bool)
    ensures
        r == is_white_space(c),
{
    ('\u{9}' <= c && c <= '\u{d}') || c == ' ' || c == '\u{85}' || c == '\u{a0}' || c == '\u{1680}'
        || ('\u{2000}' <= c && c <= '\u{200a}') || c == '\u{2028}' || c == '\u{2029}' || c
        == '\u{202f}' || c == '\u{205f}' || c == '\u{3000}'
}

/// `s` without the white space at its two ends, as `str::trim` gives it.
pub open spec fn trimmed(s: Seq<char>, r: Seq<char>) -> bool {
    exists|a: int, b: int|
        0 <= a <= b <= s.len() && #[trigger] s.subrange(a, b) == r && (forall|k: int|
            0 <= k < a ==> is_white_space(#[trigger] s[k])) && (forall|k: int|
            b <= k < s.len() ==> is_white_space(#[trigger] s[k])) && (a < b ==> !is_white_space(
            s[a]) && !is_white_space(s[b - 1]))
}

/// `s` without the white space at its two ends.
pub fn trim_text(s: &str) -> (r: String)
    ensures
        trimmed(s@, r@),
{
    let n = s.unicode_len();
    let mut a: usize = 0;
    while a < n && white_space(s.get_char(a))
        invariant
            n == s@.len(),
            0 <= a <= n,
            forall|k: int| 0 <= k < a ==> is_white_space(#[trigger] s@[k]),
        decreases n - a,
    {
        a = a + 1;
    }
    let mut b: usize = n;
    while b > a && white_space(s.get_char(b - 1))
        invariant
            n == s@.len(),
            0 <= a <= b <= n,
            forall|k: int| b <= k < n ==> is_white_space(#[trigger] s@[k]),
            a < n ==> !is_white_space(s@[a as int]),
        decreases b - a,
    {
        b = b - 1;
    }
    let r = String::from_str(s.substring_char(a, b));
    assert(s@.subrange(a as int, b as int) == r@);
    r
}

/// The request that adds `text` as a comment, without the white space at its ends;
/// nothing where only white space is left.
pub fn comment_body(text: &str) -> (r: Option<AddComment>)
    ensures
        match r {
            Some(c) => trimmed(text@, c.text@) && c.text@.len() > 0,
            None => trimmed(text@, Seq::empty()),
        },
{
    let t = trim_text(text);
    if t.as_str().unicode_len() == 0 {
        assert(t@ =~= Seq::<char>::empty());
        None
    } else {
        Some(AddComment { text: t })
    }
}

} // verus!
