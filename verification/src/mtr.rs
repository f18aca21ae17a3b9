//! The method traversal record: a fingerprint of the `Select` choices taken
//! along a decomposition path, compared across re-plans to detect whether a
//! new plan is a meaningful change.

use vstd::prelude::*;

verus! {

/// Method traversal record. One entry is appended per `Select` decision taken
/// along the chosen decomposition path: the index of the chosen branch. Lower
/// values mean higher priority.
///
/// Ordering is lexicographic over the common prefix of two records; a strictly
/// empty record sorts as worse (greater) than any non-empty one, and equal to
/// another empty record; and two records whose common prefix is entirely equal
/// are considered equal, even when one is longer: still pursuing a refinement
/// of the same method is not a regression.
pub struct Mtr(pub Vec<u16>);

impl View for Mtr {
    type V = Seq<u16>;

    open spec fn view(&self) -> Seq<u16> {
        self.0@
    }
}

/// Equality of method traversal records: every pair of entries in the common
/// prefix is equal, so the shorter of two non-empty records is equal to the
/// longer one. A strictly empty record sorts as worse than any non-empty one,
/// so it is equal only to another empty record.
pub open spec fn mtr_eq(a: Seq<u16>, b: Seq<u16>) -> bool {
    &&& (a.len() == 0) == (b.len() == 0)
    &&& forall|i: int| 0 <= i < a.len() && i < b.len() ==> a[i] == b[i]
}

/// Lexicographic comparison of the common prefix, starting at entry `i`.
/// Records whose common prefix is entirely equal compare as equal.
pub open spec fn mtr_lex_from(a: Seq<u16>, b: Seq<u16>, i: int) -> core::cmp::Ordering
    decreases a.len() - i,
{
    if i < 0 || i >= a.len() || i >= b.len() {
        core::cmp::Ordering::Equal
    } else if a[i] < b[i] {
        core::cmp::Ordering::Less
    } else if a[i] > b[i] {
        core::cmp::Ordering::Greater
    } else {
        mtr_lex_from(a, b, i + 1)
    }
}

/// Full comparison of method traversal records: a strictly empty record
/// sorts as greater (worse) than any non-empty one; otherwise — including
/// for two empty records — the common prefix decides.
pub open spec fn mtr_cmp(a: Seq<u16>, b: Seq<u16>) -> core::cmp::Ordering {
    if a.len() == 0 && b.len() > 0 {
        core::cmp::Ordering::Greater
    } else if b.len() == 0 && a.len() > 0 {
        core::cmp::Ordering::Less
    } else {
        mtr_lex_from(a, b, 0)
    }
}

/// An empty record sorts as worse (greater) than any non-empty one, any
/// non-empty record sorts as better (less) than the empty one, and two empty
/// records compare as equal.
pub proof fn lemma_empty_mtr_sorts_last(a: Seq<u16>, b: Seq<u16>)
    ensures
        a.len() == 0 && b.len() > 0 ==> mtr_cmp(a, b) == core::cmp::Ordering::Greater,
        a.len() > 0 && b.len() == 0 ==> mtr_cmp(a, b) == core::cmp::Ordering::Less,
        a.len() == 0 && b.len() == 0 ==> mtr_cmp(a, b) == core::cmp::Ordering::Equal,
{
}

/// A non-empty record whose entries all match the other's over the common
/// prefix is equal to it, even when one record is longer: still pursuing a
/// refinement of the same method is not a regression.
pub proof fn lemma_mtr_prefix_is_equal(a: Seq<u16>, b: Seq<u16>)
    requires
        0 < a.len() <= b.len(),
        a == b.subrange(0, a.len() as int),
    ensures
        mtr_eq(a, b),
        mtr_eq(b, a),
{
    assert forall|i: int| 0 <= i < a.len() && i < b.len() implies a[i] == b[i] by {
        assert(b.subrange(0, a.len() as int)[i] == b[i]);
    }
}

impl Mtr {
    /// Adds a new method order to the record. Lower values mean higher
    /// priority.
    pub fn with(self, method_order: u16) -> (r: Self)
        ensures
            r@ == self@.push(method_order),
    {
        let Mtr(mut entries) = self;
        entries.push(method_order);
        Mtr(entries)
    }

    /// Creates an empty record, which is considered lower priority than any
    /// non-empty record.
    pub fn none() -> (r: Self)
        ensures
            r@ == Seq::<u16>::empty(),
    {
        Mtr(Vec::new())
    }

    fn eq_from(&self, other: &Self, i: usize) -> (r: bool)
        requires
            i <= self@.len(),
            i <= other@.len(),
        ensures
            r == forall|j: int| i <= j < self@.len() && j < other@.len() ==> self@[j] == other@[j],
        decreases self@.len() - i,
    {
        if i >= self.0.len() || i >= other.0.len() {
            true
        } else if self.0[i] != other.0[i] {
            false
        } else {
            self.eq_from(other, i + 1)
        }
    }

    fn lex_from(&self, other: &Self, i: usize) -> (r: core::cmp::Ordering)
        requires
            i <= self@.len(),
            i <= other@.len(),
        ensures
            r == mtr_lex_from(self@, other@, i as int),
        decreases self@.len() - i,
    {
        if i >= self.0.len() || i >= other.0.len() {
            core::cmp::Ordering::Equal
        } else if self.0[i] < other.0[i] {
            core::cmp::Ordering::Less
        } else if self.0[i] > other.0[i] {
            core::cmp::Ordering::Greater
        } else {
            self.lex_from(other, i + 1)
        }
    }
}

/// The character for one decimal digit.
pub open spec fn dec_digit(d: int) -> char {
    if d == 0 {
        '0'
    } else if d == 1 {
        '1'
    } else if d == 2 {
        '2'
    } else if d == 3 {
        '3'
    } else if d == 4 {
        '4'
    } else if d == 5 {
        '5'
    } else if d == 6 {
        '6'
    } else if d == 7 {
        '7'
    } else if d == 8 {
        '8'
    } else {
        '9'
    }
}

/// The decimal rendering of a non-negative integer, most significant digit
/// first.
pub open spec fn dec_text(n: int) -> Seq<char>
    decreases n,
{
    if n < 10 {
        seq![dec_digit(n)]
    } else {
        dec_text(n / 10) + seq![dec_digit(n % 10)]
    }
}

/// The textual rendering of a record: its entries in decimal, joined by
/// dots.
pub open spec fn mtr_text(s: Seq<u16>) -> Seq<char>
    decreases s.len(),
{
    if s.len() == 0 {
        Seq::empty()
    } else if s.len() == 1 {
        dec_text(s[0] as int)
    } else {
        mtr_text(s.drop_last()) + seq!['.'] + dec_text(s.last() as int)
    }
}

/// The one-character text for a decimal digit.
fn digit_str(d: u16) -> (r: &'static str)
    requires
        d < 10,
    ensures
        r@ == seq![dec_digit(d as int)],
{
    let r: &'static str = match d {
        0 => "0",
        1 => "1",
        2 => "2",
        3 => "3",
        4 => "4",
        5 => "5",
        6 => "6",
        7 => "7",
        8 => "8",
        _ => "9",
    };
    proof {
        reveal_strlit("0");
        reveal_strlit("1");
        reveal_strlit("2");
        reveal_strlit("3");
        reveal_strlit("4");
        reveal_strlit("5");
        reveal_strlit("6");
        reveal_strlit("7");
        reveal_strlit("8");
        reveal_strlit("9");
        assert(r@ =~= seq![dec_digit(d as int)]);
    }
    r
}

/// The decimal text of one record entry.
fn entry_text(n: u16) -> (r: String)
    ensures
        r@ == dec_text(n as int),
    decreases n,
{
    if n < 10 {
        let r = digit_str(n).to_owned();
        r
    } else {
        let high = entry_text(n / 10);
        let r = high.concat(digit_str(n % 10));
        proof {
            assert(r@ =~= dec_text(n as int));
        }
        r
    }
}

impl Mtr {
    /// The record as text: its entries in decimal, joined by dots, as the
    /// record is shown in diagnostics.
    pub fn to_text(&self) -> (r: String)
        ensures
            r@ == mtr_text(self@),
    {
        let mut acc = String::new();
        let mut i: usize = 0;
        proof {
            assert(self@.subrange(0, 0) =~= Seq::<u16>::empty());
        }
        while i < self.0.len()
            invariant
                i <= self@.len(),
                acc@ == mtr_text(self@.subrange(0, i as int)),
            decreases self@.len() - i,
        {
            if i > 0 {
                proof {
                    reveal_strlit(".");
                }
                acc.append(".");
            }
            let piece = entry_text(self.0[i]);
            acc.append(piece.as_str());
            proof {
                let done = self@.subrange(0, i + 1 as int);
                assert(done.drop_last() =~= self@.subrange(0, i as int));
                assert(done.last() == self@[i as int]);
                if i == 0 {
                    assert(acc@ =~= mtr_text(done));
                } else {
                    reveal_strlit(".");
                    assert((".")@ =~= seq!['.']);
                    assert(acc@ =~= mtr_text(done.drop_last()) + seq!['.'] + dec_text(
                        done.last() as int,
                    ));
                }
            }
            i = i + 1;
        }
        proof {
            assert(self@.subrange(0, self@.len() as int) =~= self@);
        }
        acc
    }
}

impl Clone for Mtr {
    fn clone(&self) -> (r: Self)
        ensures
            r@ == self@,
    {
        let mut entries: Vec<u16> = Vec::new();
        let mut i: usize = 0;
        while i < self.0.len()
            invariant
                i <= self.0.len(),
                entries@ == self.0@.subrange(0, i as int),
            decreases self.0.len() - i,
        {
            entries.push(self.0[i]);
            i = i + 1;
        }
        proof {
            assert(entries@ =~= self.0@);
        }
        Mtr(entries)
    }
}

impl Default for Mtr {
    fn default() -> (r: Self)
        ensures
            r@ == Seq::<u16>::empty(),
    {
        Mtr(Vec::new())
    }
}

impl PartialEq for Mtr {
    fn eq(&self, other: &Self) -> (r: bool)
    {
        if (self.0.len() == 0) != (other.0.len() == 0) {
            false
        } else {
            self.eq_from(other, 0)
        }
    }
}

impl vstd::std_specs::cmp::PartialEqSpecImpl for Mtr {
    open spec fn obeys_eq_spec() -> bool {
        true
    }

    open spec fn eq_spec(&self, other: &Self) -> bool {
        mtr_eq(self@, other@)
    }
}

impl Eq for Mtr {}

impl PartialOrd for Mtr {
    fn partial_cmp(&self, other: &Self) -> (r: Option<core::cmp::Ordering>)
    {
        if self.0.len() == 0 && other.0.len() > 0 {
            Some(core::cmp::Ordering::Greater)
        } else if other.0.len() == 0 && self.0.len() > 0 {
            Some(core::cmp::Ordering::Less)
        } else {
            Some(self.lex_from(other, 0))
        }
    }
}

impl vstd::std_specs::cmp::PartialOrdSpecImpl for Mtr {
    open spec fn obeys_partial_cmp_spec() -> bool {
        true
    }

    open spec fn partial_cmp_spec(&self, other: &Self) -> Option<core::cmp::Ordering> {
        Some(mtr_cmp(self@, other@))
    }
}

} // verus!
