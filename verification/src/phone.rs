//! The phone-lookup resolver: builds the people-search query URL from a name
//! and an address, and selects the phone candidates out of the result cards.
//!
//! Reading the cards off the live page is navigation and stays outside the
//! library; the caps, the filtering and the URL construction are verified
//! here on plain values.

use vstd::prelude::*;
use crate::text::ws_tokens;
use crate::text::ws_split;
use crate::text::split_on;
use crate::text::split_str;
use crate::text::trimmed;
use crate::text::trim_str;
use crate::text::lemma_split_on_nonempty;

verus! {

/// One phone candidate: a result card that held at least one telephone
/// anchor. `name` and `address` may legitimately be empty; the numbers are
/// non-empty by construction and keep their document order.
#[derive(Debug, Clone)]
pub struct PhoneResult {
    pub name: String,
    pub address: String,
    pub phone_numbers: Vec<String>,
}

/// One raw result card as read off the page: display name and address,
/// empty when absent, and the texts of its telephone anchors in document
/// order, empty when the card has none.
#[derive(Debug, Clone)]
pub struct ResultCard {
    pub name: String,
    pub address: String,
    pub phone_numbers: Vec<String>,
}

/// The mathematical value shared by [`ResultCard`] and [`PhoneResult`].
pub ghost struct PhoneEntryView {
    pub name: Seq<char>,
    pub address: Seq<char>,
    pub phone_numbers: Seq<Seq<char>>,
}

impl View for PhoneResult {
    type V = PhoneEntryView;

    open spec fn view(&self) -> PhoneEntryView {
        PhoneEntryView {
            name: self.name@,
            address: self.address@,
            phone_numbers: self.phone_numbers@.map_values(|p: String| p@),
        }
    }
}

impl View for ResultCard {
    type V = PhoneEntryView;

    open spec fn view(&self) -> PhoneEntryView {
        PhoneEntryView {
            name: self.name@,
            address: self.address@,
            phone_numbers: self.phone_numbers@.map_values(|p: String| p@),
        }
    }
}

/// The cards kept as candidates: exactly those with at least one phone
/// number, in order.
pub open spec fn kept_of(cards: Seq<PhoneEntryView>) -> Seq<PhoneEntryView>
    decreases cards.len(),
{
    if cards.len() == 0 {
        Seq::empty()
    } else {
        let rest = kept_of(cards.drop_last());
        if cards.last().phone_numbers.len() > 0 {
            rest.push(cards.last())
        } else {
            rest
        }
    }
}

/// At most the first 5 cards of the page are ever inspected.
pub open spec fn capped(cards: Seq<PhoneEntryView>) -> Seq<PhoneEntryView> {
    if cards.len() <= 5 {
        cards
    } else {
        cards.take(5)
    }
}

/// The candidates of a page's result cards: of the first 5 cards, those
/// with at least one phone number, in document order.
pub open spec fn candidates_of(cards: Seq<PhoneEntryView>) -> Seq<PhoneEntryView> {
    kept_of(capped(cards))
}

/// Every emitted candidate holds at least one phone number: a card without
/// a telephone anchor is excluded from the output.
pub proof fn lemma_candidates_have_phones(cards: Seq<PhoneEntryView>)
    ensures
        forall|j: int|
            0 <= j < candidates_of(cards).len() ==> candidates_of(
                cards,
            )[j].phone_numbers.len() > 0,
{
    lemma_kept_have_phones(capped(cards));
}

proof fn lemma_kept_have_phones(cards: Seq<PhoneEntryView>)
    ensures
        forall|j: int| 0 <= j < kept_of(cards).len() ==> kept_of(cards)[j].phone_numbers.len() > 0,
    decreases cards.len(),
{
    if cards.len() > 0 {
        lemma_kept_have_phones(cards.drop_last());
        let rest = kept_of(cards.drop_last());
        if cards.last().phone_numbers.len() > 0 {
            assert forall|j: int| 0 <= j < kept_of(cards).len() implies kept_of(
                cards,
            )[j].phone_numbers.len() > 0 by {
                if j < rest.len() {
                    assert(kept_of(cards)[j] == rest[j]);
                } else {
                    assert(kept_of(cards)[j] == cards.last());
                }
            }
        }
    }
}

/// Every one of the first 5 cards that holds a phone number is included.
pub proof fn lemma_card_with_phones_included(cards: Seq<PhoneEntryView>, i: int)
    requires
        0 <= i < cards.len(),
        i < 5,
        cards[i].phone_numbers.len() > 0,
    ensures
        candidates_of(cards).contains(cards[i]),
{
    assert(capped(cards)[i] == cards[i]);
    lemma_kept_contains(capped(cards), i);
}

proof fn lemma_kept_contains(cards: Seq<PhoneEntryView>, i: int)
    requires
        0 <= i < cards.len(),
        cards[i].phone_numbers.len() > 0,
    ensures
        kept_of(cards).contains(cards[i]),
    decreases cards.len(),
{
    let rest = kept_of(cards.drop_last());
    if i == cards.len() - 1 {
        assert(kept_of(cards) == rest.push(cards.last()));
        assert(kept_of(cards)[rest.len() as int] == cards[i]);
    } else {
        assert(cards.drop_last()[i] == cards[i]);
        lemma_kept_contains(cards.drop_last(), i);
        let j = choose|j: int| 0 <= j < rest.len() && rest[j] == cards[i];
        if cards.last().phone_numbers.len() > 0 {
            assert(kept_of(cards)[j] == cards[i]);
        } else {
            assert(kept_of(cards)[j] == cards[i]);
        }
    }
}

/// Keeping cards never adds any: the output is never longer than the input.
pub proof fn lemma_kept_no_longer(cards: Seq<PhoneEntryView>)
    ensures
        kept_of(cards).len() <= cards.len(),
    decreases cards.len(),
{
    if cards.len() > 0 {
        lemma_kept_no_longer(cards.drop_last());
    }
}

/// Never more than 5 candidates come out of one page, however many cards
/// the page holds.
pub proof fn lemma_at_most_five_candidates(cards: Seq<PhoneEntryView>)
    ensures
        candidates_of(cards).len() <= 5,
{
    lemma_kept_no_longer(capped(cards));
}

/// Selects the phone candidates out of the page's result cards: of the
/// first 5 cards, keeps exactly those with at least one phone number, in
/// document order, and discards the rest.
pub fn select_candidates(cards: Vec<ResultCard>) -> (r: Vec<PhoneResult>)
    ensures
        r@.map_values(|p: PhoneResult| p@) == candidates_of(
            cards@.map_values(|c: ResultCard| c@),
        ),
{
    let ghost all = cards@.map_values(|c: ResultCard| c@);
    let mut cards = cards;
    let mut r: Vec<PhoneResult> = Vec::new();
    let mut i: usize = 0;
    while i < 5 && cards.len() > 0
        invariant
            i <= 5,
            i <= all.len(),
            cards@.map_values(|c: ResultCard| c@) == all.skip(i as int),
            r@.map_values(|p: PhoneResult| p@) == kept_of(all.take(i as int)),
        decreases 5 - i,
    {
        proof {
            assert(cards@.map_values(|c: ResultCard| c@).len() == cards@.len());
            assert(all.skip(i as int).len() == all.len() - i);
            assert(i < all.len());
            assert(all.take(i + 1).drop_last() =~= all.take(i as int));
            assert(all.take(i + 1).last() == all[i as int]);
            assert(all.skip(i as int)[0] == all[i as int]);
            assert(cards@.map_values(|c: ResultCard| c@)[0] == cards@[0]@);
        }
        let ghost prev_cards = cards@;
        let ghost prev = r@.map_values(|p: PhoneResult| p@);
        let card = cards.remove(0);
        proof {
            assert(prev_cards.map_values(|c: ResultCard| c@).len() == prev_cards.len());
            assert forall|j: int| 0 <= j < cards@.len() implies #[trigger] cards@[j]@ == all.skip(
                i + 1,
            )[j] by {
                assert(cards@[j] == prev_cards[j + 1]);
                assert(prev_cards.map_values(|c: ResultCard| c@)[j + 1] == prev_cards[j + 1]@);
                assert(all.skip(i as int)[j + 1] == all[i + 1 + j]);
                assert(all.skip(i + 1)[j] == all[i + 1 + j]);
            }
            assert(cards@.map_values(|c: ResultCard| c@) =~= all.skip(i + 1));
        }
        if card.phone_numbers.len() > 0 {
            let kept = PhoneResult {
                name: card.name,
                address: card.address,
                phone_numbers: card.phone_numbers,
            };
            proof {
                assert(kept@ == all[i as int]);
            }
            r.push(kept);
            proof {
                assert(r@.map_values(|p: PhoneResult| p@) =~= prev.push(all[i as int]));
            }
        }
        i += 1;
    }
    proof {
        if i == 5 {
            if all.len() <= 5 {
                assert(all.skip(5).len() == 0);
                assert(all.take(i as int) =~= all);
            } else {
                assert(capped(all) == all.take(5));
            }
        } else {
            assert(all.skip(i as int).len() == 0);
            assert(i == all.len());
            assert(all.take(i as int) =~= all);
        }
    }
    r
}

/// The rate-limit delay applied before every lookup navigation, in whole
/// time units; newly built resolvers start at this value.
pub const DEFAULT_RATE_LIMIT_SECS: u64 = 2;

/// The fixed pause after navigation that lets client-side rendering settle
/// before the result cards are read. Changing the rate limit never touches
/// this value.
pub const SETTLE_SECS: u64 = 3;

/// The phone-lookup resolver's configuration: how long to pause before each
/// navigation. The pauses themselves, and the navigation, are performed by
/// the surrounding program.
pub struct PhoneLookup {
    pub rate_limit_secs: u64,
}

impl PhoneLookup {
    /// A resolver with the default rate-limit delay.
    pub fn new() -> (r: Self)
        ensures
            r.rate_limit_secs == DEFAULT_RATE_LIMIT_SECS,
    {
        Self { rate_limit_secs: DEFAULT_RATE_LIMIT_SECS }
    }

    /// Changes the pre-navigation delay; the settle pause is unaffected.
    pub fn set_rate_limit(&mut self, seconds: u64)
        ensures
            final(self).rate_limit_secs == seconds,
    {
        self.rate_limit_secs = seconds;
    }

    /// The first whitespace token of the name, or empty when there is none.
    pub open spec fn first_name_of(name: Seq<char>) -> Seq<char> {
        let t = ws_tokens(name);
        if t.len() >= 1 {
            t[0]
        } else {
            Seq::empty()
        }
    }

    /// The last whitespace token of the name when it has two or more,
    /// else empty: a single token is taken as a first name alone.
    pub open spec fn last_name_of(name: Seq<char>) -> Seq<char> {
        let t = ws_tokens(name);
        if t.len() >= 2 {
            t.last()
        } else {
            Seq::empty()
        }
    }

    /// The second-to-last comma part of the address, trimmed, when the
    /// address has two or more parts, else empty.
    pub open spec fn city_of(address: Seq<char>) -> Seq<char> {
        let p = split_on(address, ',');
        if p.len() >= 2 {
            trimmed(p[p.len() - 2])
        } else {
            Seq::empty()
        }
    }

    /// The first whitespace token of the last comma part of the address,
    /// or the fixed fallback state code when that part holds no token.
    pub open spec fn state_of(address: Seq<char>) -> Seq<char> {
        let p = split_on(address, ',');
        let t = ws_tokens(trimmed(p.last()));
        if t.len() >= 1 {
            t[0]
        } else {
            "CT"@
        }
    }

    /// The query URL for a name and address: the fixed template with the
    /// name parts and the city and state substituted in.
    pub open spec fn search_url_of(name: Seq<char>, address: Seq<char>) -> Seq<char> {
        "https://www.truepeoplesearch.com/results?name="@ + Self::first_name_of(name) + " "@
            + Self::last_name_of(name) + "&citystatezip="@ + Self::city_of(address) + ", "@
            + Self::state_of(address)
    }

    /// Builds the people-search query URL for a name and an address.
    pub fn build_search_url(&self, name: &str, address: &str) -> (r: String)
        ensures
            r@ == Self::search_url_of(name@, address@),
    {
        let tokens = ws_split(name);
        let ghost toks = ws_tokens(name@);
        let first = if tokens.len() >= 1 {
            proof {
                assert(tokens@.map_values(|p: String| p@)[0] == tokens@[0]@);
            }
            tokens[0].clone()
        } else {
            String::new()
        };
        let last = if tokens.len() >= 2 {
            proof {
                assert(tokens@.map_values(|p: String| p@)[toks.len() - 1] == tokens@[tokens@.len()
                    - 1]@);
            }
            tokens[tokens.len() - 1].clone()
        } else {
            String::new()
        };
        let parts = split_str(address, ',');
        let ghost ps = split_on(address@, ',');
        proof {
            lemma_split_on_nonempty(address@, ',');
        }
        let city = if parts.len() >= 2 {
            proof {
                assert(parts@.map_values(|p: String| p@)[ps.len() - 2] == parts@[parts@.len()
                    - 2]@);
            }
            trim_str(parts[parts.len() - 2].as_str())
        } else {
            String::new()
        };
        proof {
            assert(parts@.map_values(|p: String| p@)[ps.len() - 1] == parts@[parts@.len() - 1]@);
        }
        let last_part = trim_str(parts[parts.len() - 1].as_str());
        let state_tokens = ws_split(last_part.as_str());
        let state = if state_tokens.len() >= 1 {
            proof {
                assert(state_tokens@.map_values(|p: String| p@)[0] == state_tokens@[0]@);
            }
            state_tokens[0].clone()
        } else {
            String::from_str("CT")
        };
        let mut r = String::from_str("https://www.truepeoplesearch.com/results?name=");
        r.append(first.as_str());
        r.append(" ");
        r.append(last.as_str());
        r.append("&citystatezip=");
        r.append(city.as_str());
        r.append(", ");
        r.append(state.as_str());
        r
    }
}

} // verus!
