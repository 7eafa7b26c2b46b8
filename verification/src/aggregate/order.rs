//! The derived statistics do not depend on the order in which the events
//! are stored.

use crate::aggregate::rates::{drops_of, kills_of, total_kills};
use crate::aggregate::refresh::{stat_for, stat_group};
use crate::aggregate::report::rate_row;
use crate::aggregate::{
    count_where, greatest_item, greatest_mob, later_text, max_text, total_where, Chosen,
};
use crate::entities::drops;
use crate::text::{lemma_lex_le_antisymmetric, lemma_lex_le_total, lemma_lex_le_transitive, lex_le};
use vstd::prelude::*;

verus! {

/// Taking the later of three texts gives the same whichever two are
/// compared first.
pub proof fn lemma_later_text_swaps(m: Seq<char>, u: Seq<char>, v: Seq<char>)
    ensures
        later_text(later_text(m, u), v) == later_text(later_text(m, v), u),
{
    lemma_lex_le_total(m, u);
    lemma_lex_le_total(m, v);
    lemma_lex_le_total(u, v);
    if lex_le(m, u) && lex_le(u, v) {
        lemma_lex_le_transitive(m, u, v);
    }
    if lex_le(m, v) && lex_le(v, u) {
        lemma_lex_le_transitive(m, v, u);
    }
    if lex_le(u, m) && lex_le(m, v) {
        lemma_lex_le_transitive(u, m, v);
    }
    if lex_le(v, m) && lex_le(m, u) {
        lemma_lex_le_transitive(v, m, u);
    }
    if lex_le(u, v) && lex_le(v, m) {
        lemma_lex_le_transitive(u, v, m);
    }
    if lex_le(v, u) && lex_le(u, m) {
        lemma_lex_le_transitive(v, u, m);
    }
    if lex_le(u, v) && lex_le(v, u) {
        lemma_lex_le_antisymmetric(u, v);
    }
    if lex_le(m, u) && lex_le(u, m) {
        lemma_lex_le_antisymmetric(m, u);
    }
    if lex_le(m, v) && lex_le(v, m) {
        lemma_lex_le_antisymmetric(m, v);
    }
}

/// Taking the greater of three optional texts gives the same whichever two
/// are compared first.
pub proof fn lemma_max_text_swaps(
    m: Option<Seq<char>>,
    u: Option<Seq<char>>,
    v: Option<Seq<char>>,
)
    ensures
        max_text(max_text(m, u), v) == max_text(max_text(m, v), u),
{
    match (m, u, v) {
        (Some(a), Some(b), Some(c)) => {
            lemma_later_text_swaps(a, b, c);
        },
        (None, Some(b), Some(c)) => {
            lemma_lex_le_total(b, c);
            if lex_le(b, c) && lex_le(c, b) {
                lemma_lex_le_antisymmetric(b, c);
            }
        },
        _ => {},
    }
}

/// Taking one event out of the list takes its share out of each figure.
pub proof fn lemma_figures_without(events: Seq<drops::ModelView>, chosen: Chosen, i: int)
    requires
        0 <= i < events.len(),
    ensures
        count_where(events, chosen) == count_where(events.remove(i), chosen) + if chosen(
            events[i],
        ) {
            1int
        } else {
            0int
        },
        total_where(events, chosen) == total_where(events.remove(i), chosen) + if chosen(
            events[i],
        ) {
            events[i].quantity as int
        } else {
            0int
        },
        greatest_mob(events, chosen) == if chosen(events[i]) {
            max_text(greatest_mob(events.remove(i), chosen), events[i].source_mob)
        } else {
            greatest_mob(events.remove(i), chosen)
        },
        greatest_item(events, chosen) == if chosen(events[i]) {
            later_text(greatest_item(events.remove(i), chosen), events[i].item_name)
        } else {
            greatest_item(events.remove(i), chosen)
        },
    decreases events.len(),
{
    if i == events.len() - 1 {
        assert(events.remove(i) =~= events.drop_last());
    } else {
        let earlier = events.drop_last();
        let rest = events.remove(i);
        lemma_figures_without(earlier, chosen, i);
        assert(rest.drop_last() =~= earlier.remove(i));
        assert(rest.last() == events.last());
        assert(earlier[i] == events[i]);
        if chosen(events[i]) && chosen(events.last()) {
            lemma_max_text_swaps(
                greatest_mob(earlier.remove(i), chosen),
                events[i].source_mob,
                events.last().source_mob,
            );
            lemma_later_text_swaps(
                greatest_item(earlier.remove(i), chosen),
                events[i].item_name,
                events.last().item_name,
            );
        }
    }
}

/// The figures over chosen events are the same for any two lists that
/// hold the same events, in whatever order.
pub proof fn lemma_figures_ignore_order(
    a: Seq<drops::ModelView>,
    b: Seq<drops::ModelView>,
    chosen: Chosen,
)
    requires
        a.to_multiset() == b.to_multiset(),
    ensures
        count_where(a, chosen) == count_where(b, chosen),
        total_where(a, chosen) == total_where(b, chosen),
        greatest_mob(a, chosen) == greatest_mob(b, chosen),
        greatest_item(a, chosen) == greatest_item(b, chosen),
    decreases a.len(),
{
    a.to_multiset_ensures();
    b.to_multiset_ensures();
    if a.len() == 0 {
        assert(b.len() == 0);
    } else {
        let last = a.last();
        assert(a.contains(last));
        assert(b.to_multiset().count(last) > 0);
        assert(b.contains(last));
        let j = choose|j: int| 0 <= j < b.len() && b[j] == last;
        assert(a.remove(a.len() - 1) =~= a.drop_last());
        assert(a.drop_last().to_multiset() =~= b.remove(j).to_multiset());
        lemma_figures_ignore_order(a.drop_last(), b.remove(j), chosen);
        lemma_figures_without(b, chosen, j);
    }
}

/// The aggregate under a key is the same for any two lists that hold the
/// same events, in whatever order.
pub proof fn lemma_stat_ignores_order(
    a: Seq<drops::ModelView>,
    b: Seq<drops::ModelView>,
    key: (i32, Seq<char>),
)
    requires
        a.to_multiset() == b.to_multiset(),
    ensures
        stat_for(a, key) == stat_for(b, key),
{
    lemma_figures_ignore_order(a, b, stat_group(key));
}

/// The line of the report for a mob and item is the same for any two lists
/// that hold the same events, in whatever order.
pub proof fn lemma_rate_row_ignores_order(
    a: Seq<drops::ModelView>,
    b: Seq<drops::ModelView>,
    key: (Option<i32>, i32),
)
    requires
        a.to_multiset() == b.to_multiset(),
    ensures
        rate_row(a, key) == rate_row(b, key),
        total_kills(a, key.0) == total_kills(b, key.0),
{
    lemma_figures_ignore_order(a, b, drops_of(key.0, key.1));
    match key.0 {
        Some(id) => {
            lemma_figures_ignore_order(a, b, kills_of(id));
        },
        None => {},
    }
}

} // verus!
