//! The level-2 order book of the market-data service.
//!
//! Quotes (prices and sizes) arrive from the feed as IEEE-754 binary64
//! numbers; the book keeps each one as its 64-bit pattern. For numbers that
//! are greater than zero the order of the patterns, read as unsigned
//! integers, is the numeric order, so the book orders and finds its levels
//! by these integers and never does floating-point arithmetic.
use crate::text::bytes_equal;
use std::collections::BTreeMap;
use vstd::string::StringSliceAdditionalSpecFns;
use vstd::prelude::*;
use vstd::std_specs::iter::IteratorSpec;

verus! {

/// Bit pattern of positive infinity: the largest pattern that stands for a
/// number greater than zero (the patterns above it are NaNs or negative).
pub const POSITIVE_INFINITY_BITS: u64 = 0x7ff0_0000_0000_0000;

/// Bit pattern of negative zero.
pub const NEGATIVE_ZERO_BITS: u64 = 0x8000_0000_0000_0000;

/// How many levels of each side a snapshot message contributes.
pub const SNAPSHOT_DEPTH: usize = 80;

/// How many levels of each side are published after every change.
pub const PUBLISHED_DEPTH: usize = 20;

/// The quote with bit pattern `q` is a number greater than zero.
pub open spec fn spec_is_positive(q: u64) -> bool {
    0 < q && q <= POSITIVE_INFINITY_BITS
}

/// The quote with bit pattern `q` is zero (of either sign).
pub open spec fn spec_is_zero(q: u64) -> bool {
    q == 0 || q == NEGATIVE_ZERO_BITS
}

/// Whether the quote with bit pattern `q` is greater than zero.
pub fn is_positive(q: u64) -> (b: bool)
    ensures
        b == spec_is_positive(q),
{
    0 < q && q <= POSITIVE_INFINITY_BITS
}

/// Whether the quote with bit pattern `q` equals zero.
pub fn is_zero(q: u64) -> (b: bool)
    ensures
        b == spec_is_zero(q),
{
    q == 0 || q == NEGATIVE_ZERO_BITS
}

/// The side of the book that an incremental change addresses.
#[derive(Clone, Copy, Debug, PartialEq, Eq, Structural)]
pub enum BookSide {
    /// A bid level (`"buy"` in the feed).
    Buy,
    /// An ask level (`"sell"` in the feed).
    Sell,
    /// Any other side label; such a change is ignored.
    Other,
}

/// The bytes of `"buy"`.
pub open spec fn spec_buy_label() -> Seq<u8> {
    seq![98u8, 117u8, 121u8]
}

/// The bytes of `"sell"`.
pub open spec fn spec_sell_label() -> Seq<u8> {
    seq![115u8, 101u8, 108u8, 108u8]
}

/// The side that a label with UTF-8 bytes `bytes` names.
pub open spec fn spec_side_of(bytes: Seq<u8>) -> BookSide {
    if bytes == spec_buy_label() {
        BookSide::Buy
    } else if bytes == spec_sell_label() {
        BookSide::Sell
    } else {
        BookSide::Other
    }
}

/// The feed's side labels name the sides: `"buy"` the bids, `"sell"` the
/// asks, and a label in other case neither.
pub proof fn lemma_side_labels()
    ensures
        spec_side_of("buy".spec_bytes()) == BookSide::Buy,
        spec_side_of("sell".spec_bytes()) == BookSide::Sell,
        spec_side_of("BUY".spec_bytes()) == BookSide::Other,
{
    reveal_strlit("buy");
    reveal_strlit("sell");
    reveal_strlit("BUY");
    vstd::string::is_ascii_spec_bytes("buy");
    vstd::string::is_ascii_spec_bytes("sell");
    vstd::string::is_ascii_spec_bytes("BUY");
    assert("buy".spec_bytes() =~= spec_buy_label());
    assert("sell".spec_bytes() =~= spec_sell_label());
    assert("BUY".spec_bytes()[0] == 66u8);
}

impl BookSide {
    /// Reads the side label of a level-2 change: `"buy"`, `"sell"`, and
    /// anything else as another side.
    pub fn from_label(label: &str) -> (side: BookSide)
        ensures
            side == spec_side_of(label.spec_bytes()),
    {
        let bytes = label.as_bytes();
        let buy: [u8; 3] = [98u8, 117u8, 121u8];
        let sell: [u8; 4] = [115u8, 101u8, 108u8, 108u8];
        proof {
            assert(buy@ =~= spec_buy_label());
            assert(sell@ =~= spec_sell_label());
        }
        if bytes_equal(bytes, &buy) {
            BookSide::Buy
        } else if bytes_equal(bytes, &sell) {
            BookSide::Sell
        } else {
            BookSide::Other
        }
    }
}

/// The levels that a snapshot side of `entries` (price, size) builds: every
/// entry whose price and size are both greater than zero, a later entry for
/// the same price replacing an earlier one.
pub open spec fn spec_levels_from(entries: Seq<(u64, u64)>) -> Map<u64, u64>
    decreases entries.len(),
{
    if entries.len() == 0 {
        Map::empty()
    } else {
        let prev = spec_levels_from(entries.drop_last());
        let (p, s): (u64, u64) = entries.last();
        if spec_is_positive(p) && spec_is_positive(s) {
            prev.insert(p, s)
        } else {
            prev
        }
    }
}

/// The levels of one side after a snapshot message: only its first
/// `SNAPSHOT_DEPTH` entries are read.
pub open spec fn spec_snapshot_side(entries: Seq<(u64, u64)>) -> Map<u64, u64> {
    if entries.len() <= SNAPSHOT_DEPTH {
        spec_levels_from(entries)
    } else {
        spec_levels_from(entries.take(SNAPSHOT_DEPTH as int))
    }
}

/// One side after a change of the level at `price` to `size`: a size of zero
/// removes the level, any other size sets it.
pub open spec fn spec_change_level(levels: Map<u64, u64>, price: u64, size: u64) -> Map<u64, u64> {
    if spec_is_zero(size) {
        levels.remove(price)
    } else {
        levels.insert(price, size)
    }
}

/// Every level of `levels` has a price greater than zero and a size that is
/// not zero.
pub open spec fn spec_valid_levels(levels: Map<u64, u64>) -> bool {
    forall|p: u64| #[trigger] levels.contains_key(p) ==> spec_is_positive(p) && !spec_is_zero(levels[p])
}

/// `out` lists, in increasing order of price, the `depth` lowest levels of
/// `levels` (all of them when there are fewer).
pub open spec fn spec_lowest_levels(levels: Map<u64, u64>, out: Seq<(u64, u64)>, depth: nat) -> bool {
    &&& out.len() == if levels.len() < depth { levels.len() } else { depth }
    &&& forall|i: int, j: int| 0 <= i < j < out.len() ==> out[i].0 < out[j].0
    &&& forall|i: int|
        0 <= i < out.len() ==> levels.contains_key(#[trigger] out[i].0) && levels[out[i].0]
            == out[i].1
    &&& forall|k: u64, i: int|
        #![trigger levels.contains_key(k), out[i]]
        levels.contains_key(k) && 0 <= i < out.len() && k < out[i].0 ==> exists|j: int|
            0 <= j < i && out[j].0 == k
}

/// `out` lists, in decreasing order of price, the `depth` highest levels of
/// `levels` (all of them when there are fewer).
pub open spec fn spec_highest_levels(levels: Map<u64, u64>, out: Seq<(u64, u64)>, depth: nat) -> bool {
    &&& out.len() == if levels.len() < depth { levels.len() } else { depth }
    &&& forall|i: int, j: int| 0 <= i < j < out.len() ==> out[i].0 > out[j].0
    &&& forall|i: int|
        0 <= i < out.len() ==> levels.contains_key(#[trigger] out[i].0) && levels[out[i].0]
            == out[i].1
    &&& forall|k: u64, i: int|
        #![trigger levels.contains_key(k), out[i]]
        levels.contains_key(k) && 0 <= i < out.len() && k > out[i].0 ==> exists|j: int|
            0 <= j < i && out[j].0 == k
}

/// `all` lists every level of `levels` once, in strictly increasing order of
/// price.
pub open spec fn spec_all_levels(levels: Map<u64, u64>, all: Seq<(u64, u64)>) -> bool {
    &&& all.len() == levels.len()
    &&& forall|i: int, j: int| 0 <= i < j < all.len() ==> all[i].0 < all[j].0
    &&& forall|i: int|
        0 <= i < all.len() ==> levels.contains_key(#[trigger] all[i].0) && levels[all[i].0]
            == all[i].1
    &&& forall|k: u64| levels.contains_key(k) ==> exists|i: int| 0 <= i < all.len() && #[trigger] all[i].0 == k
}

/// The first `depth` entries of a complete increasing listing are the lowest
/// levels.
proof fn lemma_prefix_is_lowest(levels: Map<u64, u64>, all: Seq<(u64, u64)>, out: Seq<(u64, u64)>, depth: nat)
    requires
        spec_all_levels(levels, all),
        out.len() == if all.len() < depth { all.len() } else { depth },
        forall|j: int| 0 <= j < out.len() ==> #[trigger] out[j] == all[j],
    ensures
        spec_lowest_levels(levels, out, depth),
{
    assert forall|k: u64, i: int|
        #![trigger levels.contains_key(k), out[i]]
        levels.contains_key(k) && 0 <= i < out.len() && k < out[i].0 implies exists|j: int|
            0 <= j < i && out[j].0 == k by {
        let l: int = choose|l: int| 0 <= l < all.len() && #[trigger] all[l].0 == k;
        if l >= i {
            if l > i {
                assert(all[i].0 < all[l].0);
            }
            assert(false);
        }
        assert(out[l].0 == k);
    }
}

/// The last `depth` entries of a complete increasing listing, read
/// backwards, are the highest levels.
proof fn lemma_suffix_is_highest(levels: Map<u64, u64>, all: Seq<(u64, u64)>, out: Seq<(u64, u64)>, depth: nat)
    requires
        spec_all_levels(levels, all),
        out.len() == if all.len() < depth { all.len() } else { depth },
        forall|j: int| 0 <= j < out.len() ==> #[trigger] out[j] == all[all.len() - 1 - j],
    ensures
        spec_highest_levels(levels, out, depth),
{
    assert forall|i: int, j: int| 0 <= i < j < out.len() implies out[i].0 > out[j].0 by {
        assert(out[i] == all[all.len() - 1 - i]);
        assert(out[j] == all[all.len() - 1 - j]);
    }
    assert forall|i: int|
        0 <= i < out.len() implies levels.contains_key(#[trigger] out[i].0) && levels[out[i].0]
            == out[i].1 by {
        assert(out[i] == all[all.len() - 1 - i]);
    }
    assert forall|k: u64, i: int|
        #![trigger levels.contains_key(k), out[i]]
        levels.contains_key(k) && 0 <= i < out.len() && k > out[i].0 implies exists|j: int|
            0 <= j < i && out[j].0 == k by {
        let l: int = choose|l: int| 0 <= l < all.len() && #[trigger] all[l].0 == k;
        let m: int = all.len() - 1 - i;
        assert(out[i] == all[m]);
        if l <= m {
            if l < m {
                assert(all[l].0 < all[m].0);
            }
            assert(false);
        }
        let j: int = all.len() - 1 - l;
        assert(out[j] == all[l]);
    }
}

/// The bid and ask levels of one product, each mapping a price to the size
/// quoted at it.
pub struct OrderBook {
    bids: BTreeMap<u64, u64>,
    asks: BTreeMap<u64, u64>,
}

impl OrderBook {
    /// Every level on either side has a positive price and a non-zero size.
    #[verifier::type_invariant]
    spec fn levels_are_valid(self) -> bool {
        spec_valid_levels(self.bids@) && spec_valid_levels(self.asks@)
    }

    /// The bid levels, price to size.
    pub closed spec fn bid_levels(&self) -> Map<u64, u64> {
        self.bids@
    }

    /// The ask levels, price to size.
    pub closed spec fn ask_levels(&self) -> Map<u64, u64> {
        self.asks@
    }

    /// An empty book.
    pub fn new() -> (book: Self)
        ensures
            book.bid_levels() == Map::<u64, u64>::empty(),
            book.ask_levels() == Map::<u64, u64>::empty(),
    {
        OrderBook { bids: BTreeMap::new(), asks: BTreeMap::new() }
    }

    /// Fills `side` from the entries of one side of a snapshot message.
    fn fill_side(side: &mut BTreeMap<u64, u64>, entries: &[(u64, u64)])
        requires
            old(side)@ == Map::<u64, u64>::empty(),
        ensures
            final(side)@ == spec_snapshot_side(entries@),
            spec_valid_levels(final(side)@),
    {
        let n: usize = if entries.len() < SNAPSHOT_DEPTH {
            entries.len()
        } else {
            SNAPSHOT_DEPTH
        };
        let mut i: usize = 0;
        while i < n
            invariant
                n <= entries@.len(),
                n == entries@.len() || n == SNAPSHOT_DEPTH,
                0 <= i <= n,
                side@ == spec_levels_from(entries@.take(i as int)),
                spec_valid_levels(side@),
            decreases n - i,
        {
            let (p, s): (u64, u64) = entries[i];
            assert(entries@.take(i as int + 1).drop_last() =~= entries@.take(i as int));
            if is_positive(p) && is_positive(s) {
                side.insert(p, s);
            }
            i = i + 1;
        }
        if entries.len() <= SNAPSHOT_DEPTH {
            assert(entries@.take(n as int) =~= entries@);
        }
    }

    /// Replaces both sides with the levels of a snapshot message: the first
    /// `SNAPSHOT_DEPTH` entries of each side whose price and size are greater
    /// than zero.
    pub fn apply_snapshot(&mut self, bids: &[(u64, u64)], asks: &[(u64, u64)])
        ensures
            final(self).bid_levels() == spec_snapshot_side(bids@),
            final(self).ask_levels() == spec_snapshot_side(asks@),
            spec_valid_levels(final(self).bid_levels()),
            spec_valid_levels(final(self).ask_levels()),
    {
        proof {
            use_type_invariant(&*self);
        }
        let mut new_bids: BTreeMap<u64, u64> = BTreeMap::new();
        let mut new_asks: BTreeMap<u64, u64> = BTreeMap::new();
        Self::fill_side(&mut new_bids, bids);
        Self::fill_side(&mut new_asks, asks);
        self.bids = new_bids;
        self.asks = new_asks;
        proof {
            use_type_invariant(&*self);
        }
    }

    /// Applies one change of a level-2 update message. A change whose price
    /// is not greater than zero, or whose side is neither buy nor sell,
    /// leaves the book as it is; otherwise a size of zero removes the level
    /// and any other size sets it. A price that is not a number (a NaN
    /// pattern) counts as not greater than zero, so its change is ignored:
    /// a NaN has no place in the price order and could only stand for some
    /// unrelated level.
    pub fn apply_change(&mut self, side: BookSide, price: u64, size: u64)
        ensures
            !spec_is_positive(price) || side == BookSide::Other ==> *final(self) == *old(self),
            spec_is_positive(price) && side == BookSide::Buy ==> {
                &&& final(self).bid_levels() == spec_change_level(old(self).bid_levels(), price, size)
                &&& final(self).ask_levels() == old(self).ask_levels()
            },
            spec_is_positive(price) && side == BookSide::Sell ==> {
                &&& final(self).ask_levels() == spec_change_level(old(self).ask_levels(), price, size)
                &&& final(self).bid_levels() == old(self).bid_levels()
            },
            spec_valid_levels(final(self).bid_levels()),
            spec_valid_levels(final(self).ask_levels()),
    {
        proof {
            use_type_invariant(&*self);
        }
        if !is_positive(price) {
            return;
        }
        match side {
            BookSide::Buy => {
                let mut levels: BTreeMap<u64, u64> = BTreeMap::new();
                std::mem::swap(&mut levels, &mut self.bids);
                if is_zero(size) {
                    levels.remove(&price);
                } else {
                    levels.insert(price, size);
                }
                std::mem::swap(&mut levels, &mut self.bids);
            },
            BookSide::Sell => {
                let mut levels: BTreeMap<u64, u64> = BTreeMap::new();
                std::mem::swap(&mut levels, &mut self.asks);
                if is_zero(size) {
                    levels.remove(&price);
                } else {
                    levels.insert(price, size);
                }
                std::mem::swap(&mut levels, &mut self.asks);
            },
            BookSide::Other => {},
        }
        proof {
            use_type_invariant(&*self);
        }
    }

    /// Applies the changes of one level-2 update message, in order.
    pub fn apply_changes(&mut self, changes: &[(BookSide, u64, u64)])
        ensures
            (final(self).bid_levels(), final(self).ask_levels()) == spec_apply_changes(
                (old(self).bid_levels(), old(self).ask_levels()),
                changes@,
            ),
            spec_valid_levels(final(self).bid_levels()),
            spec_valid_levels(final(self).ask_levels()),
    {
        proof {
            use_type_invariant(&*self);
        }
        let ghost start = (self.bid_levels(), self.ask_levels());
        let mut i: usize = 0;
        while i < changes.len()
            invariant
                0 <= i <= changes@.len(),
                (self.bid_levels(), self.ask_levels()) == spec_apply_changes(start, changes@.take(i as int)),
                spec_valid_levels(self.bid_levels()),
                spec_valid_levels(self.ask_levels()),
            decreases changes@.len() - i,
        {
            let (side, price, size): (BookSide, u64, u64) = changes[i];
            proof {
                assert(changes@.take(i as int + 1).drop_last() =~= changes@.take(i as int));
            }
            self.apply_change(side, price, size);
            i = i + 1;
        }
        proof {
            assert(changes@.take(changes@.len() as int) =~= changes@);
        }
    }

    /// Every level of `side`, in increasing order of price.
    fn all_levels(side: &BTreeMap<u64, u64>) -> (all: Vec<(u64, u64)>)
        ensures
            spec_all_levels(side@, all@),
    {
        let mut all: Vec<(u64, u64)> = Vec::new();
        let levels = side.iter();
        let ghost pairs = levels.remaining();
        proof {
            broadcast use vstd::laws_cmp::group_laws_cmp;
        }
        for (k, v) in it: levels
            invariant
                pairs == it.seq(),
                all@.len() == it.index(),
                forall|i: int|
                    0 <= i < it.index() ==> #[trigger] all@[i] == (*pairs[i].0, *pairs[i].1),
        {
            all.push((*k, *v));
        }
        proof {
            let keys = pairs.map_values(|kv: (&u64, &u64)| *kv.0);
            assert(vstd::std_specs::btree::increasing_seq(keys));
            assert forall|i: int, j: int| 0 <= i < j < all@.len() implies all@[i].0 < all@[j].0 by {
                assert(keys[i] == all@[i].0);
                assert(keys[j] == all@[j].0);
                assert(vstd::std_specs::cmp::OrdSpec::cmp_spec(&keys[i], &keys[j]) is Less);
            }
            assert forall|k: u64| side@.contains_key(k) implies exists|i: int|
                0 <= i < all@.len() && #[trigger] all@[i].0 == k by {
                assert(pairs.contains((&k, &side@[k])));
                let i: int = choose|i: int| 0 <= i < pairs.len() && pairs[i] == (&k, &side@[k]);
                assert(all@[i].0 == k);
            }
        }
        all
    }

    /// The `depth` best (highest) bid levels, best first.
    pub fn top_bids(&self, depth: usize) -> (out: Vec<(u64, u64)>)
        ensures
            spec_valid_levels(self.bid_levels()),
            spec_highest_levels(self.bid_levels(), out@, depth as nat),
    {
        proof {
            use_type_invariant(self);
        }
        let all = Self::all_levels(&self.bids);
        let mut out: Vec<(u64, u64)> = Vec::new();
        let mut i: usize = all.len();
        while i > 0 && out.len() < depth
            invariant
                i <= all@.len(),
                out@.len() == all@.len() - i,
                out@.len() <= depth,
                forall|j: int| 0 <= j < out@.len() ==> #[trigger] out@[j] == all@[all@.len() - 1 - j],
            decreases i,
        {
            i = i - 1;
            out.push(all[i]);
        }
        proof {
            lemma_suffix_is_highest(self.bids@, all@, out@, depth as nat);
        }
        out
    }

    /// The `depth` best (lowest) ask levels, best first.
    pub fn top_asks(&self, depth: usize) -> (out: Vec<(u64, u64)>)
        ensures
            spec_valid_levels(self.ask_levels()),
            spec_lowest_levels(self.ask_levels(), out@, depth as nat),
    {
        proof {
            use_type_invariant(self);
        }
        let all = Self::all_levels(&self.asks);
        let mut out: Vec<(u64, u64)> = Vec::new();
        let mut i: usize = 0;
        while i < all.len() && i < depth
            invariant
                i <= all@.len(),
                out@.len() == i,
                i <= depth,
                forall|j: int| 0 <= j < i ==> #[trigger] out@[j] == all@[j],
            decreases all@.len() - i,
        {
            out.push(all[i]);
            i = i + 1;
        }
        proof {
            lemma_prefix_is_lowest(self.asks@, all@, out@, depth as nat);
        }
        out
    }
}

/// Setting a level that was absent and then setting its size to zero gives
/// back the side as it was.
pub proof fn lemma_cancel_restores(levels: Map<u64, u64>, price: u64, size: u64)
    requires
        !levels.contains_key(price),
        !spec_is_zero(size),
    ensures
        spec_change_level(spec_change_level(levels, price, size), price, 0) == levels,
{
    assert(spec_change_level(spec_change_level(levels, price, size), price, 0) =~= levels);
}

/// Of two changes at the same price, the later one decides the level.
pub proof fn lemma_last_change_wins(levels: Map<u64, u64>, price: u64, first: u64, second: u64)
    ensures
        spec_change_level(spec_change_level(levels, price, first), price, second)
            == spec_change_level(levels, price, second),
{
    assert(spec_change_level(spec_change_level(levels, price, first), price, second)
        =~= spec_change_level(levels, price, second));
}

/// Changes at two different prices may be applied in either order.
pub proof fn lemma_changes_commute(levels: Map<u64, u64>, p1: u64, s1: u64, p2: u64, s2: u64)
    requires
        p1 != p2,
    ensures
        spec_change_level(spec_change_level(levels, p1, s1), p2, s2) == spec_change_level(
            spec_change_level(levels, p2, s2),
            p1,
            s1,
        ),
{
    assert(spec_change_level(spec_change_level(levels, p1, s1), p2, s2) =~= spec_change_level(
        spec_change_level(levels, p2, s2),
        p1,
        s1,
    ));
}

/// A change keeps every level valid: it never stores a price that is not
/// greater than zero or a size of zero.
pub proof fn lemma_change_keeps_valid(levels: Map<u64, u64>, price: u64, size: u64)
    requires
        spec_valid_levels(levels),
        spec_is_positive(price),
    ensures
        spec_valid_levels(spec_change_level(levels, price, size)),
{
}

/// The levels built from `entries` are valid, and there are no more of them
/// than entries.
pub proof fn lemma_levels_from_bounded(entries: Seq<(u64, u64)>)
    ensures
        spec_valid_levels(spec_levels_from(entries)),
        spec_levels_from(entries).dom().finite(),
        spec_levels_from(entries).len() <= entries.len(),
    decreases entries.len(),
{
    if entries.len() > 0 {
        lemma_levels_from_bounded(entries.drop_last());
    }
}

/// One side of a snapshot holds at most `SNAPSHOT_DEPTH` levels, all valid.
pub proof fn lemma_snapshot_side_bounded(entries: Seq<(u64, u64)>)
    ensures
        spec_valid_levels(spec_snapshot_side(entries)),
        spec_snapshot_side(entries).len() <= SNAPSHOT_DEPTH,
{
    if entries.len() <= SNAPSHOT_DEPTH {
        lemma_levels_from_bounded(entries);
    } else {
        lemma_levels_from_bounded(entries.take(SNAPSHOT_DEPTH as int));
    }
}

/// The bid and ask levels of a book, in that order.
pub type BookLevels = (Map<u64, u64>, Map<u64, u64>);

/// One message of the level-2 feed, as the book reads it.
pub ghost enum FeedMessage {
    /// A snapshot: the (price, size) entries of the bid side, then of the
    /// ask side.
    Snapshot(Seq<(u64, u64)>, Seq<(u64, u64)>),
    /// An update: its changes (side, price, size), in order.
    Update(Seq<(BookSide, u64, u64)>),
}

/// The book after one change.
pub open spec fn spec_apply_one(book: BookLevels, side: BookSide, price: u64, size: u64) -> BookLevels {
    if !spec_is_positive(price) {
        book
    } else {
        match side {
            BookSide::Buy => (spec_change_level(book.0, price, size), book.1),
            BookSide::Sell => (book.0, spec_change_level(book.1, price, size)),
            BookSide::Other => book,
        }
    }
}

/// The book after the changes of one update message, applied in order.
pub open spec fn spec_apply_changes(book: BookLevels, changes: Seq<(BookSide, u64, u64)>) -> BookLevels
    decreases changes.len(),
{
    if changes.len() == 0 {
        book
    } else {
        let (side, price, size) = changes.last();
        spec_apply_one(spec_apply_changes(book, changes.drop_last()), side, price, size)
    }
}

/// The book after one feed message.
pub open spec fn spec_apply_message(book: BookLevels, m: FeedMessage) -> BookLevels {
    match m {
        FeedMessage::Snapshot(bids, asks) => (spec_snapshot_side(bids), spec_snapshot_side(asks)),
        FeedMessage::Update(changes) => spec_apply_changes(book, changes),
    }
}

/// The book after a stream of feed messages, starting empty.
pub open spec fn spec_feed(msgs: Seq<FeedMessage>) -> BookLevels
    decreases msgs.len(),
{
    if msgs.len() == 0 {
        (Map::empty(), Map::empty())
    } else {
        spec_apply_message(spec_feed(msgs.drop_last()), msgs.last())
    }
}

/// One feed message with its quotes as bit patterns, as the market-data
/// service hands it to the book.
#[derive(Debug, PartialEq)]
pub enum BookUpdate {
    /// The (price, size) entries of the bid side, then of the ask side.
    Snapshot(Vec<(u64, u64)>, Vec<(u64, u64)>),
    /// The changes (side, price, size), in order.
    Update(Vec<(BookSide, u64, u64)>),
}

impl View for BookUpdate {
    type V = FeedMessage;

    open spec fn view(&self) -> FeedMessage {
        match self {
            BookUpdate::Snapshot(bids, asks) => FeedMessage::Snapshot(bids@, asks@),
            BookUpdate::Update(changes) => FeedMessage::Update(changes@),
        }
    }
}

/// The messages that a stream of updates carries.
pub open spec fn spec_messages(updates: Seq<BookUpdate>) -> Seq<FeedMessage> {
    updates.map_values(|u: BookUpdate| u@)
}

impl OrderBook {
    /// Applies one feed message: a snapshot replaces both sides, an update
    /// applies its changes in order.
    pub fn apply_message(&mut self, message: &BookUpdate)
        ensures
            (final(self).bid_levels(), final(self).ask_levels()) == spec_apply_message(
                (old(self).bid_levels(), old(self).ask_levels()),
                message@,
            ),
    {
        match message {
            BookUpdate::Snapshot(bids, asks) => self.apply_snapshot(bids.as_slice(), asks.as_slice()),
            BookUpdate::Update(changes) => self.apply_changes(changes.as_slice()),
        }
    }

    /// The book that a stream of feed messages builds, starting empty.
    pub fn replay(updates: &[BookUpdate]) -> (book: OrderBook)
        ensures
            (book.bid_levels(), book.ask_levels()) == spec_feed(spec_messages(updates@)),
    {
        let mut book = OrderBook::new();
        let mut i: usize = 0;
        proof {
            assert(spec_messages(updates@.take(0)) =~= Seq::<FeedMessage>::empty());
        }
        while i < updates.len()
            invariant
                0 <= i <= updates@.len(),
                (book.bid_levels(), book.ask_levels()) == spec_feed(spec_messages(updates@.take(i as int))),
            decreases updates@.len() - i,
        {
            proof {
                let next = spec_messages(updates@.take(i as int + 1));
                assert(next.drop_last() =~= spec_messages(updates@.take(i as int)));
                assert(next.last() == updates@[i as int]@);
            }
            book.apply_message(&updates[i]);
            i = i + 1;
        }
        proof {
            assert(updates@.take(updates@.len() as int) =~= updates@);
        }
        book
    }
}

/// `m` is an update message whose change at position `j` is `change`.
pub open spec fn spec_update_has(m: FeedMessage, j: int, change: (BookSide, u64, u64)) -> bool {
    match m {
        FeedMessage::Update(changes) => 0 <= j < changes.len() && changes[j] == change,
        FeedMessage::Snapshot(_, _) => false,
    }
}

/// Some update message of `msgs` holds the change (`side`, `price`, `size`).
pub open spec fn spec_changed_by(msgs: Seq<FeedMessage>, side: BookSide, price: u64, size: u64) -> bool {
    exists|k: int, j: int| 0 <= k < msgs.len() && #[trigger] spec_update_has(msgs[k], j, (side, price, size))
}

/// Every level of `levels` whose size is not greater than zero was set by a
/// change of `msgs` on `side`.
pub open spec fn spec_nonpositive_sizes_from_changes(levels: Map<u64, u64>, msgs: Seq<FeedMessage>, side: BookSide) -> bool {
    forall|p: u64|
        #[trigger] levels.contains_key(p) && !spec_is_positive(levels[p]) ==> spec_changed_by(msgs, side, p, levels[p])
}

/// Levels built from snapshot entries all have sizes greater than zero.
proof fn lemma_levels_from_positive_sizes(entries: Seq<(u64, u64)>)
    ensures
        forall|p: u64| #[trigger] spec_levels_from(entries).contains_key(p) ==> spec_is_positive(spec_levels_from(entries)[p]),
    decreases entries.len(),
{
    if entries.len() > 0 {
        let prev = entries.drop_last();
        lemma_levels_from_positive_sizes(prev);
        let (q, z): (u64, u64) = entries.last();
        assert forall|p: u64| #[trigger] spec_levels_from(entries).contains_key(p) implies spec_is_positive(
            spec_levels_from(entries)[p],
        ) by {
            if !(spec_is_positive(q) && spec_is_positive(z) && p == q) {
                assert(spec_levels_from(prev).contains_key(p));
            }
        }
    }
}

/// A snapshot side has only sizes greater than zero.
proof fn lemma_snapshot_side_positive_sizes(entries: Seq<(u64, u64)>)
    ensures
        forall|p: u64| #[trigger] spec_snapshot_side(entries).contains_key(p) ==> spec_is_positive(spec_snapshot_side(entries)[p]),
{
    if entries.len() <= SNAPSHOT_DEPTH {
        lemma_levels_from_positive_sizes(entries);
    } else {
        lemma_levels_from_positive_sizes(entries.take(SNAPSHOT_DEPTH as int));
    }
}

/// Applying the changes of an update keeps the levels valid, and a level
/// whose size is not greater than zero afterwards either was so before or
/// was set by one of the changes.
proof fn lemma_changes_step(book: BookLevels, changes: Seq<(BookSide, u64, u64)>)
    requires
        spec_valid_levels(book.0),
        spec_valid_levels(book.1),
    ensures
        spec_valid_levels(spec_apply_changes(book, changes).0),
        spec_valid_levels(spec_apply_changes(book, changes).1),
        forall|p: u64|
            #[trigger] spec_apply_changes(book, changes).0.contains_key(p) && !spec_is_positive(
                spec_apply_changes(book, changes).0[p],
            ) ==> (book.0.contains_key(p) && book.0[p] == spec_apply_changes(book, changes).0[p]) || exists|j: int|
                0 <= j < changes.len() && changes[j] == (BookSide::Buy, p, spec_apply_changes(book, changes).0[p]),
        forall|p: u64|
            #[trigger] spec_apply_changes(book, changes).1.contains_key(p) && !spec_is_positive(
                spec_apply_changes(book, changes).1[p],
            ) ==> (book.1.contains_key(p) && book.1[p] == spec_apply_changes(book, changes).1[p]) || exists|j: int|
                0 <= j < changes.len() && changes[j] == (BookSide::Sell, p, spec_apply_changes(book, changes).1[p]),
    decreases changes.len(),
{
    if changes.len() > 0 {
        let prev = changes.drop_last();
        lemma_changes_step(book, prev);
        let mid = spec_apply_changes(book, prev);
        let (side, price, size) = changes.last();
        let last: int = changes.len() - 1;
        if spec_is_positive(price) {
            lemma_change_keeps_valid(mid.0, price, size);
            lemma_change_keeps_valid(mid.1, price, size);
        }
        let res = spec_apply_changes(book, changes);
        assert forall|p: u64|
            #[trigger] res.0.contains_key(p) && !spec_is_positive(res.0[p]) implies (book.0.contains_key(p)
                && book.0[p] == res.0[p]) || exists|j: int|
                0 <= j < changes.len() && changes[j] == (BookSide::Buy, p, res.0[p]) by {
            if spec_is_positive(price) && side == BookSide::Buy && p == price {
                assert(changes[last] == (BookSide::Buy, p, res.0[p]));
            } else {
                assert(mid.0.contains_key(p) && mid.0[p] == res.0[p]);
                if !(book.0.contains_key(p) && book.0[p] == res.0[p]) {
                    let j: int = choose|j: int| 0 <= j < prev.len() && prev[j] == (BookSide::Buy, p, mid.0[p]);
                    assert(changes[j] == prev[j]);
                }
            }
        }
        assert forall|p: u64|
            #[trigger] res.1.contains_key(p) && !spec_is_positive(res.1[p]) implies (book.1.contains_key(p)
                && book.1[p] == res.1[p]) || exists|j: int|
                0 <= j < changes.len() && changes[j] == (BookSide::Sell, p, res.1[p]) by {
            if spec_is_positive(price) && side == BookSide::Sell && p == price {
                assert(changes[last] == (BookSide::Sell, p, res.1[p]));
            } else {
                assert(mid.1.contains_key(p) && mid.1[p] == res.1[p]);
                if !(book.1.contains_key(p) && book.1[p] == res.1[p]) {
                    let j: int = choose|j: int| 0 <= j < prev.len() && prev[j] == (BookSide::Sell, p, mid.1[p]);
                    assert(changes[j] == prev[j]);
                }
            }
        }
    }
}

/// Over any stream of feed messages, starting from an empty book: every
/// level has a price greater than zero and a non-zero size, and a level
/// whose size is not greater than zero holds that size because some update
/// of the stream set its price to it.
pub proof fn lemma_feed_levels(msgs: Seq<FeedMessage>)
    ensures
        spec_valid_levels(spec_feed(msgs).0),
        spec_valid_levels(spec_feed(msgs).1),
        spec_nonpositive_sizes_from_changes(spec_feed(msgs).0, msgs, BookSide::Buy),
        spec_nonpositive_sizes_from_changes(spec_feed(msgs).1, msgs, BookSide::Sell),
    decreases msgs.len(),
{
    if msgs.len() > 0 {
        let prev = msgs.drop_last();
        lemma_feed_levels(prev);
        let before = spec_feed(prev);
        let after = spec_feed(msgs);
        let k: int = msgs.len() - 1;
        assert(msgs[k] == msgs.last());
        match msgs.last() {
            FeedMessage::Snapshot(bids, asks) => {
                lemma_snapshot_side_bounded(bids);
                lemma_snapshot_side_bounded(asks);
                lemma_snapshot_side_positive_sizes(bids);
                lemma_snapshot_side_positive_sizes(asks);
            },
            FeedMessage::Update(changes) => {
                lemma_changes_step(before, changes);
                assert forall|p: u64|
                    #[trigger] after.0.contains_key(p) && !spec_is_positive(after.0[p]) implies spec_changed_by(
                        msgs,
                        BookSide::Buy,
                        p,
                        after.0[p],
                    ) by {
                    if before.0.contains_key(p) && before.0[p] == after.0[p] {
                        assert(spec_changed_by(prev, BookSide::Buy, p, after.0[p]));
                        let (k2, j2): (int, int) = choose|k2: int, j2: int|
                            0 <= k2 < prev.len() && #[trigger] spec_update_has(prev[k2], j2, (BookSide::Buy, p, after.0[p]));
                        assert(msgs[k2] == prev[k2]);
                        assert(spec_update_has(msgs[k2], j2, (BookSide::Buy, p, after.0[p])));
                    } else {
                        let j: int = choose|j: int| 0 <= j < changes.len() && changes[j] == (BookSide::Buy, p, after.0[p]);
                        assert(spec_update_has(msgs[k], j, (BookSide::Buy, p, after.0[p])));
                    }
                }
                assert forall|p: u64|
                    #[trigger] after.1.contains_key(p) && !spec_is_positive(after.1[p]) implies spec_changed_by(
                        msgs,
                        BookSide::Sell,
                        p,
                        after.1[p],
                    ) by {
                    if before.1.contains_key(p) && before.1[p] == after.1[p] {
                        assert(spec_changed_by(prev, BookSide::Sell, p, after.1[p]));
                        let (k2, j2): (int, int) = choose|k2: int, j2: int|
                            0 <= k2 < prev.len() && #[trigger] spec_update_has(prev[k2], j2, (BookSide::Sell, p, after.1[p]));
                        assert(msgs[k2] == prev[k2]);
                        assert(spec_update_has(msgs[k2], j2, (BookSide::Sell, p, after.1[p])));
                    } else {
                        let j: int = choose|j: int| 0 <= j < changes.len() && changes[j] == (BookSide::Sell, p, after.1[p]);
                        assert(spec_update_has(msgs[k], j, (BookSide::Sell, p, after.1[p])));
                    }
                }
            },
        }
    }
}

/// `m` is an update message whose change at position `j` is on `side` at
/// `price`.
pub open spec fn spec_update_at(m: FeedMessage, j: int, side: BookSide, price: u64) -> bool {
    match m {
        FeedMessage::Update(changes) => 0 <= j < changes.len() && changes[j].0 == side && changes[j].1 == price,
        FeedMessage::Snapshot(_, _) => false,
    }
}

/// Some update message after position `k` of `msgs` has a change on `side`
/// at `price`.
pub open spec fn spec_changes_price_after(msgs: Seq<FeedMessage>, k: int, side: BookSide, price: u64) -> bool {
    exists|k2: int, j: int| k < k2 < msgs.len() && #[trigger] spec_update_at(msgs[k2], j, side, price)
}

/// None of `changes` is on `side` at `price`.
pub open spec fn spec_no_change_at(changes: Seq<(BookSide, u64, u64)>, side: BookSide, price: u64) -> bool {
    forall|j: int| 0 <= j < changes.len() ==> !((#[trigger] changes[j]).0 == side && changes[j].1 == price)
}

/// Changes none of which is on a side at `price` leave that side's level at
/// `price` as it was: present with the same size, or absent.
proof fn lemma_changes_leave_level(book: BookLevels, changes: Seq<(BookSide, u64, u64)>, price: u64)
    ensures
        spec_no_change_at(changes, BookSide::Buy, price) ==> {
            &&& spec_apply_changes(book, changes).0.contains_key(price) == book.0.contains_key(price)
            &&& spec_apply_changes(book, changes).0[price] == book.0[price]
        },
        spec_no_change_at(changes, BookSide::Sell, price) ==> {
            &&& spec_apply_changes(book, changes).1.contains_key(price) == book.1.contains_key(price)
            &&& spec_apply_changes(book, changes).1[price] == book.1[price]
        },
    decreases changes.len(),
{
    if changes.len() > 0 {
        let prev = changes.drop_last();
        lemma_changes_leave_level(book, prev, price);
        let last: int = changes.len() - 1;
        if spec_no_change_at(changes, BookSide::Buy, price) {
            assert forall|j: int| 0 <= j < prev.len() implies !((#[trigger] prev[j]).0 == BookSide::Buy && prev[j].1
                == price) by {
                assert(prev[j] == changes[j]);
            }
            assert(!(changes[last].0 == BookSide::Buy && changes[last].1 == price));
        }
        if spec_no_change_at(changes, BookSide::Sell, price) {
            assert forall|j: int| 0 <= j < prev.len() implies !((#[trigger] prev[j]).0 == BookSide::Sell && prev[j].1
                == price) by {
                assert(prev[j] == changes[j]);
            }
            assert(!(changes[last].0 == BookSide::Sell && changes[last].1 == price));
        }
    }
}

/// A level that a snapshot set keeps a size greater than zero until an
/// update changes its price: if `msgs[k]` is a snapshot and no later update
/// has a change on the bid (ask) side at `price`, the bid (ask) level at
/// `price` after the stream, if any, has a size greater than zero.
pub proof fn lemma_snapshot_level_stays_positive(msgs: Seq<FeedMessage>, k: int, price: u64)
    requires
        0 <= k < msgs.len(),
        msgs[k] is Snapshot,
    ensures
        !spec_changes_price_after(msgs, k, BookSide::Buy, price) && spec_feed(msgs).0.contains_key(price)
            ==> spec_is_positive(spec_feed(msgs).0[price]),
        !spec_changes_price_after(msgs, k, BookSide::Sell, price) && spec_feed(msgs).1.contains_key(price)
            ==> spec_is_positive(spec_feed(msgs).1[price]),
    decreases msgs.len(),
{
    let n: int = msgs.len() - 1;
    let prev = msgs.drop_last();
    let before = spec_feed(prev);
    assert(msgs[n] == msgs.last());
    match msgs.last() {
        FeedMessage::Snapshot(bids, asks) => {
            lemma_snapshot_side_positive_sizes(bids);
            lemma_snapshot_side_positive_sizes(asks);
        },
        FeedMessage::Update(changes) => {
            assert(k < n);
            assert(prev[k] == msgs[k]);
            lemma_snapshot_level_stays_positive(prev, k, price);
            lemma_changes_leave_level(before, changes, price);
            if !spec_changes_price_after(msgs, k, BookSide::Buy, price) {
                assert forall|k2: int, j: int|
                    k < k2 < prev.len() implies !#[trigger] spec_update_at(prev[k2], j, BookSide::Buy, price) by {
                    assert(prev[k2] == msgs[k2]);
                    if spec_update_at(prev[k2], j, BookSide::Buy, price) {
                        assert(spec_update_at(msgs[k2], j, BookSide::Buy, price));
                    }
                }
                assert forall|j: int| 0 <= j < changes.len() implies !((#[trigger] changes[j]).0 == BookSide::Buy
                    && changes[j].1 == price) by {
                    if changes[j].0 == BookSide::Buy && changes[j].1 == price {
                        assert(spec_update_at(msgs[n], j, BookSide::Buy, price));
                    }
                }
            }
            if !spec_changes_price_after(msgs, k, BookSide::Sell, price) {
                assert forall|k2: int, j: int|
                    k < k2 < prev.len() implies !#[trigger] spec_update_at(prev[k2], j, BookSide::Sell, price) by {
                    assert(prev[k2] == msgs[k2]);
                    if spec_update_at(prev[k2], j, BookSide::Sell, price) {
                        assert(spec_update_at(msgs[k2], j, BookSide::Sell, price));
                    }
                }
                assert forall|j: int| 0 <= j < changes.len() implies !((#[trigger] changes[j]).0 == BookSide::Sell
                    && changes[j].1 == price) by {
                    if changes[j].0 == BookSide::Sell && changes[j].1 == price {
                        assert(spec_update_at(msgs[n], j, BookSide::Sell, price));
                    }
                }
            }
        },
    }
}

/// What the book publishes after a stream of feed messages: when the book
/// holds the levels of `spec_feed(msgs)`, its published best bids and asks
/// (at most `PUBLISHED_DEPTH` each, bids by decreasing and asks by
/// increasing price) are levels with prices greater than zero and non-zero
/// sizes, and those of their sizes that are not greater than zero were set
/// by a change at their price.
pub proof fn lemma_feed_published(msgs: Seq<FeedMessage>, bids: Seq<(u64, u64)>, asks: Seq<(u64, u64)>)
    requires
        spec_highest_levels(spec_feed(msgs).0, bids, PUBLISHED_DEPTH as nat),
        spec_lowest_levels(spec_feed(msgs).1, asks, PUBLISHED_DEPTH as nat),
    ensures
        bids.len() <= PUBLISHED_DEPTH,
        asks.len() <= PUBLISHED_DEPTH,
        forall|i: int, j: int| 0 <= i < j < bids.len() ==> bids[i].0 > bids[j].0,
        forall|i: int, j: int| 0 <= i < j < asks.len() ==> asks[i].0 < asks[j].0,
        forall|i: int|
            0 <= i < bids.len() ==> spec_is_positive((#[trigger] bids[i]).0) && !spec_is_zero(bids[i].1) && (
            spec_is_positive(bids[i].1) || spec_changed_by(msgs, BookSide::Buy, bids[i].0, bids[i].1)),
        forall|i: int|
            0 <= i < asks.len() ==> spec_is_positive((#[trigger] asks[i]).0) && !spec_is_zero(asks[i].1) && (
            spec_is_positive(asks[i].1) || spec_changed_by(msgs, BookSide::Sell, asks[i].0, asks[i].1)),
{
    lemma_feed_levels(msgs);
    let book = spec_feed(msgs);
    assert forall|i: int|
        0 <= i < bids.len() implies spec_is_positive((#[trigger] bids[i]).0) && !spec_is_zero(bids[i].1) && (
        spec_is_positive(bids[i].1) || spec_changed_by(msgs, BookSide::Buy, bids[i].0, bids[i].1)) by {
        assert(book.0.contains_key(bids[i].0));
    }
    assert forall|i: int|
        0 <= i < asks.len() implies spec_is_positive((#[trigger] asks[i]).0) && !spec_is_zero(asks[i].1) && (
        spec_is_positive(asks[i].1) || spec_changed_by(msgs, BookSide::Sell, asks[i].0, asks[i].1)) by {
        assert(book.1.contains_key(asks[i].0));
    }
}

} // verus!
