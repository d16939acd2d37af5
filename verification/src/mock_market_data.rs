//! A scripted quote source for exercising the engine.
use vstd::prelude::*;
use crate::gmglobal_watcher::Quote;
use crate::text_map::TextMap;

verus! {

/// A quote source that replays, per product, quotes given in advance.
pub struct MockMarketData {
    quotes: TextMap<Vec<Quote>>,
}

impl View for MockMarketData {
    type V = Map<Seq<char>, Seq<Quote>>;

    closed spec fn view(&self) -> Map<Seq<char>, Seq<Quote>> {
        self.quotes@.map_values(|v: Vec<Quote>| v@)
    }
}

impl MockMarketData {
    /// A source with no quotes.
    pub fn new() -> (m: Self)
        ensures
            m@ == Map::<Seq<char>, Seq<Quote>>::empty(),
    {
        let m = MockMarketData { quotes: TextMap::new() };
        assert(m@ =~= Map::<Seq<char>, Seq<Quote>>::empty());
        m
    }

    /// Sets the quotes `product` will give, in order, replacing any left.
    pub fn add_quotes(&mut self, product: &str, quotes: Vec<Quote>)
        ensures
            final(self)@ == old(self)@.insert(product@, quotes@),
    {
        self.quotes.insert(String::from_str(product), quotes);
        assert(self@ =~= old(self)@.insert(product@, quotes@));
    }

    /// Whether `product` has a quote left.
    pub fn has_quote(&self, product: &str) -> (r: bool)
        ensures
            r == (self@.dom().contains(product@) && self@[product@].len() > 0),
    {
        let key = String::from_str(product);
        match self.quotes.get(&key) {
            Some(q) => q.len() > 0,
            None => false,
        }
    }

    /// The next quote of `product`; it is used up.
    pub fn get_quote(&mut self, product: &str) -> (q: Quote)
        requires
            old(self)@.dom().contains(product@),
            old(self)@[product@].len() > 0,
        ensures
            q == old(self)@[product@][0],
            final(self)@ == old(self)@.insert(product@, old(self)@[product@].drop_first()),
    {
        let key = String::from_str(product);
        let mut list = match self.quotes.remove(&key) {
            Some(l) => l,
            None => {
                assert(false);
                Vec::new()
            },
        };
        let q = list.remove(0);
        assert(list@ =~= old(self)@[product@].drop_first());
        self.quotes.insert(key, list);
        assert(self@ =~= old(self)@.insert(product@, old(self)@[product@].drop_first()));
        q
    }
}

/// Quotes come out in the order they were added: after `add_quotes(p, qs)`,
/// successive `get_quote(p)` give `qs[0]`, `qs[1]`, ... and leave the rest.
pub proof fn law_quotes_in_order(m: Map<Seq<char>, Seq<Quote>>, p: Seq<char>, qs: Seq<Quote>, k: nat)
    requires
        k <= qs.len(),
    ensures
        ({
            let after = m.insert(p, qs.skip(k as int));
            &&& after.dom().contains(p)
            &&& k < qs.len() ==> after[p][0] == qs[k as int]
            &&& k < qs.len() ==> after.insert(p, after[p].drop_first()) == m.insert(p, qs.skip(k + 1int))
        }),
{
    let after = m.insert(p, qs.skip(k as int));
    if k < qs.len() {
        assert(after[p].drop_first() =~= qs.skip(k + 1int));
        assert(after.insert(p, after[p].drop_first()) =~= m.insert(p, qs.skip(k + 1int)));
    }
}

} // verus!
