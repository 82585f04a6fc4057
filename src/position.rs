use vstd::prelude::*;

use crate::text::same_text;

verus! {

/// Where a caller asked an entity to go, read from the raw position text.
pub enum PositionRequest {
    /// The literal `top`.
    Top,
    /// The literal `bottom`.
    Bottom,
    /// A positive, 1-based rank among the siblings.
    Rank(usize),
    /// Anything else, handed to the backend unchanged.
    Raw(String),
}

/// The position value that a rank resolves to among siblings sorted by position.
#[derive(PartialEq, Eq, Structural, Debug, Clone, Copy)]
pub enum Placement {
    /// Before every sibling.
    Top,
    /// After every sibling.
    Bottom,
    /// Halfway between the sibling at index `before` and the one at index `after`.
    Midpoint { before: usize, after: usize },
}

/// The value of a decimal digit.
pub open spec fn digit_value(c: char) -> nat {
    (c as nat - '0' as nat) as nat
}

/// Whether every character of `s` is an ASCII decimal digit.
pub open spec fn all_digits(s: Seq<char>) -> bool {
    forall|i: int| 0 <= i < s.len() ==> '0' <= #[trigger] s[i] <= '9'
}

/// The number that a string of decimal digits denotes.
pub open spec fn decimal_value(s: Seq<char>) -> nat
    decreases s.len(),
{
    if s.len() == 0 {
        0
    } else {
        decimal_value(s.drop_last()) * 10 + digit_value(s.last())
    }
}

/// The digits of an unsigned number as text: one optional leading `+`, then the rest.
pub open spec fn unsigned_digits(s: Seq<char>) -> Seq<char> {
    if s.len() > 0 && s[0] == '+' {
        s.drop_first()
    } else {
        s
    }
}

/// What reading `s` as an unsigned machine-sized integer gives: an optional `+`
/// followed by at least one decimal digit, with a value that fits.
pub open spec fn parsed_unsigned(s: Seq<char>) -> Option<nat> {
    let d = unsigned_digits(s);
    if d.len() > 0 && all_digits(d) && decimal_value(d) <= usize::MAX {
        Some(decimal_value(d))
    } else {
        None
    }
}

/// The request that a raw position text stands for.
pub open spec fn request_of(raw: Seq<char>) -> PositionRequest {
    if raw == "top"@ {
        PositionRequest::Top
    } else if raw == "bottom"@ {
        PositionRequest::Bottom
    } else {
        match parsed_unsigned(raw) {
            Some(n) => if n >= 1 {
                PositionRequest::Rank(n as usize)
            } else {
                PositionRequest::Raw(arbitrary())
            },
            None => PositionRequest::Raw(arbitrary()),
        }
    }
}

/// Where rank `n` (1-based) goes among `count` siblings sorted by position:
/// ranks up to 1, and every rank among no siblings, go to the top; ranks past the
/// last sibling go to the bottom; any other rank goes between the siblings that
/// currently hold ranks `n - 1` and `n`.
pub open spec fn placement(count: nat, n: nat) -> Placement {
    if n <= 1 || count == 0 {
        Placement::Top
    } else if n > count {
        Placement::Bottom
    } else {
        Placement::Midpoint { before: (n - 2) as usize, after: (n - 1) as usize }
    }
}

proof fn lemma_decimal_value_grows(s: Seq<char>, k: int)
    requires
        0 <= k <= s.len(),
    ensures
        decimal_value(s.subrange(0, k)) <= decimal_value(s),
    decreases s.len() - k,
{
    if k < s.len() {
        let t = s.subrange(0, k + 1);
        assert(t.drop_last() =~= s.subrange(0, k));
        lemma_decimal_value_grows(s, k + 1);
    } else {
        assert(s.subrange(0, k) =~= s);
    }
}

/// Reads an unsigned machine-sized integer as `str::parse::<usize>` does: an
/// optional `+`, then one or more decimal digits whose value fits.
pub fn parse_unsigned(s: &str) -> (r: Option<usize>)
    ensures
        match parsed_unsigned(s@) {
            Some(n) => r == Some(n as usize),
            None => r is None,
        },
{
    let n = s.unicode_len();
    let mut i: usize = 0;
    if n > 0 && s.get_char(0) == '+' {
        i = 1;
    }
    let ghost d = unsigned_digits(s@);
    assert(d =~= s@.subrange(i as int, n as int));
    if i == n {
        return None;
    }
    let start = i;
    let mut acc: usize = 0;
    while i < n
        invariant
            n == s@.len(),
            d == s@.subrange(start as int, n as int),
            d == unsigned_digits(s@),
            start <= i <= n,
            all_digits(d.subrange(0, i - start)),
            acc as nat == decimal_value(d.subrange(0, i - start)),
        decreases n - i,
    {
        let c = s.get_char(i);
        let ghost k = i - start;
        proof {
            assert(d[k] == c);
            assert(d.subrange(0, k + 1).drop_last() =~= d.subrange(0, k));
            assert(d.subrange(0, k + 1).last() == c);
        }
        if !('0' <= c && c <= '9') {
            proof {
                assert(!all_digits(d));
            }
            return None;
        }
        let dv = (c as u32 - '0' as u32) as usize;
        if acc > (usize::MAX - dv) / 10 {
            proof {
                assert(decimal_value(d.subrange(0, k + 1)) > usize::MAX) by (nonlinear_arith)
                    requires
                        decimal_value(d.subrange(0, k + 1)) == acc * 10 + dv,
                        acc > (usize::MAX - dv) / 10,
                        dv <= 9,
                ;
                lemma_decimal_value_grows(d, k + 1);
            }
            return None;
        }
        proof {
            assert(acc * 10 + dv <= usize::MAX) by (nonlinear_arith)
                requires
                    acc <= (usize::MAX - dv) / 10,
                    dv <= 9,
            ;
            assert(all_digits(d.subrange(0, k + 1)));
        }
        acc = acc * 10 + dv;
        i = i + 1;
    }
    assert(d.subrange(0, n - start) =~= d);
    Some(acc)
}

/// Reads a raw position: the literals `top` and `bottom` (exact, case-sensitive),
/// a positive integer rank, or else the text unchanged (zero included).
pub fn parse_position(raw: &str) -> (r: PositionRequest)
    ensures
        match request_of(raw@) {
            PositionRequest::Raw(_) => r is Raw && r->Raw_0@ == raw@,
            other => r == other,
        },
{
    if same_text(raw, "top") {
        return PositionRequest::Top;
    }
    if same_text(raw, "bottom") {
        return PositionRequest::Bottom;
    }
    match parse_unsigned(raw) {
        Some(n) => if n >= 1 {
            PositionRequest::Rank(n)
        } else {
            PositionRequest::Raw(String::from_str(raw))
        },
        None => PositionRequest::Raw(String::from_str(raw)),
    }
}

/// Resolves rank `target_pos` among `count` siblings that are sorted by position
/// and leave out the entity being placed.
pub fn place_rank(count: usize, target_pos: usize) -> (r: Placement)
    ensures
        r == placement(count as nat, target_pos as nat),
{
    if target_pos <= 1 || count == 0 {
        Placement::Top
    } else if target_pos > count {
        Placement::Bottom
    } else {
        Placement::Midpoint { before: target_pos - 2, after: target_pos - 1 }
    }
}

/// A rank strictly inside the siblings lands between the siblings now ranked
/// `n - 1` and `n`, and both of those exist.
pub proof fn lemma_inner_rank_is_midpoint(count: nat, n: nat)
    requires
        1 < n <= count,
        count <= usize::MAX,
    ensures
        placement(count, n) == (Placement::Midpoint { before: (n - 2) as usize, after: (n - 1) as usize }),
        n - 2 < count && n - 1 < count,
{
}

/// A rank of at most 1 goes to the top, whatever the siblings.
pub proof fn lemma_low_rank_is_top(count: nat, n: nat)
    requires
        n <= 1,
    ensures
        placement(count, n) == Placement::Top,
{
}

/// A rank past the last of a non-empty run of siblings goes to the bottom.
pub proof fn lemma_rank_past_end_is_bottom(count: nat, n: nat)
    requires
        count > 0,
        n > count,
    ensures
        placement(count, n) == Placement::Bottom,
{
}

/// Among no siblings, every rank goes to the top.
pub proof fn lemma_no_siblings_is_top(n: nat)
    ensures
        placement(0, n) == Placement::Top,
{
}

impl PositionRequest {
    /// The value to send as it is, for every request but a rank, which first needs
    /// the siblings.
    pub fn direct_value(&self) -> (r: Option<String>)
        ensures
            match self {
                PositionRequest::Top => r is Some && r->Some_0@ == "top"@,
                PositionRequest::Bottom => r is Some && r->Some_0@ == "bottom"@,
                PositionRequest::Rank(_) => r is None,
                PositionRequest::Raw(s) => r is Some && r->Some_0@ == s@,
            },
    {
        match self {
            PositionRequest::Top => Some(String::from_str("top")),
            PositionRequest::Bottom => Some(String::from_str("bottom")),
            PositionRequest::Rank(_) => None,
            PositionRequest::Raw(s) => Some(s.clone()),
        }
    }
}

impl Placement {
    /// The literal to send for the top and the bottom; a midpoint is computed
    /// from the two siblings' positions instead.
    pub fn marker(&self) -> (r: Option<String>)
        ensures
            match self {
                Placement::Top => r is Some && r->Some_0@ == "top"@,
                Placement::Bottom => r is Some && r->Some_0@ == "bottom"@,
                Placement::Midpoint { .. } => r is None,
            },
    {
        match self {
            Placement::Top => Some(String::from_str("top")),
            Placement::Bottom => Some(String::from_str("bottom")),
            Placement::Midpoint { .. } => None,
        }
    }
}

/// The positions, in order, of the entities other than `own`.
pub open spec fn others(ids: Seq<Seq<char>>, own: Seq<char>) -> Seq<usize>
    decreases ids.len(),
{
    if ids.len() == 0 {
        Seq::empty()
    } else {
        let rest = others(ids.drop_last(), own);
        if ids.last() != own {
            rest.push((ids.len() - 1) as usize)
        } else {
            rest
        }
    }
}

/// The identifiers' texts.
pub open spec fn id_texts(ids: Seq<String>) -> Seq<Seq<char>> {
    ids.map_values(|s: String| s@)
}

/// The siblings of the entity `own` among the entities with identifiers `ids`: the
/// positions, in order, of every entity but `own` itself.
pub fn sibling_indices(ids: &[String], own: &str) -> (r: Vec<usize>)
    ensures
        r@ == others(id_texts(ids@), own@),
{
    let mut out: Vec<usize> = Vec::new();
    let mut i: usize = 0;
    while i < ids.len()
        invariant
            0 <= i <= ids@.len(),
            out@ == others(id_texts(ids@.subrange(0, i as int)), own@),
        decreases ids@.len() - i,
    {
        proof {
            let after = id_texts(ids@.subrange(0, i + 1));
            assert(after.drop_last() =~= id_texts(ids@.subrange(0, i as int)));
            assert(after.last() == ids@[i as int]@);
        }
        if !same_text(ids[i].as_str(), own) {
            out.push(i);
        }
        i = i + 1;
    }
    assert(ids@.subrange(0, ids@.len() as int) =~= ids@);
    out
}

} // verus!
