//! What the queries select, and where subscriptions start.

use vstd::prelude::*;

use crate::config::WindowsEventLogConfig;
use crate::query::FactoryView;
use crate::recovery::{ResumeState, Rung};
use crate::win32_errors::QueryOrigin;

verus! {

// ---------------------------------------------------------------------------
// Queries for event ids
// ---------------------------------------------------------------------------
/// The predicates of two lists are those of the one or those of the other, and
/// one id gives one comparison with its numeral.
pub proof fn ids_are_alternatives(a: Seq<u32>, b: Seq<u32>, n: u32)
    requires
        a.len() > 0,
        b.len() > 0,
    ensures
        crate::query::id_predicates(a + b) == crate::query::id_predicates(a) + " or "@
            + crate::query::id_predicates(b),
        crate::query::id_predicates(seq![n]) == "EventID="@ + crate::text::decimal(n as nat),
    decreases b.len(),
{
    reveal_with_fuel(crate::query::id_predicates, 2);
    let rest = b.drop_last();
    assert((a + b).drop_last() =~= a + rest);
    assert((a + b).last() == b.last());
    if b.len() == 1 {
        assert(a + rest =~= a);
        assert(crate::query::id_predicates(a + b) =~= crate::query::id_predicates(a) + " or "@
            + crate::query::id_predicates(b));
    } else {
        ids_are_alternatives(a, rest, n);
        assert(crate::query::id_predicates(a + b) =~= crate::query::id_predicates(a) + " or "@
            + crate::query::id_predicates(b));
    }
}

/// The alternatives stand in one predicate on the system part of any event.
pub proof fn id_queries_are_framed(ids: Seq<u32>)
    ensures
        crate::query::id_query(ids) == "*[System["@ + crate::query::id_predicates(ids) + "]]"@,
{
}

/// Whether a list of alternatives, comparisons of the event id with a numeral
/// joined by `or`, holds of an id.
pub open spec fn holds_of(predicates: Seq<char>, id: nat) -> bool
    decreases predicates.len(),
{
    ||| predicates == "EventID="@ + crate::text::decimal(id)
    ||| exists|i: int|
        0 <= i && i + 4 <= predicates.len() && #[trigger] predicates.subrange(i, i + 4) == " or "@
            && (holds_of(predicates.take(i), id) || holds_of(predicates.skip(i + 4), id))
}

proof fn lemma_numerals_have_no_space(n: nat)
    ensures
        forall|i: int|
            0 <= i < ("EventID="@ + crate::text::decimal(n)).len() ==> #[trigger] ("EventID="@
                + crate::text::decimal(n))[i] != ' ',
{
    crate::laws::texts::numerals_read_back(n);
    reveal_strlit("EventID=");
    let prefix = "EventID="@;
    let term = prefix + crate::text::decimal(n);
    assert forall|i: int| 0 <= i < term.len() implies #[trigger] term[i] != ' ' by {
        if i >= prefix.len() {
            assert(term[i] == crate::text::decimal(n)[i - prefix.len()]);
        }
    }
}

/// A list of alternatives starts with a comparison, not with a space.
proof fn lemma_first_character(ids: Seq<u32>)
    requires
        ids.len() > 0,
    ensures
        crate::query::id_predicates(ids).len() > 0,
        crate::query::id_predicates(ids)[0] == 'E',
    decreases ids.len(),
{
    reveal_strlit("EventID=");
    if ids.len() > 1 {
        lemma_first_character(ids.drop_last());
    }
}

/// Where `or` stands in a list of alternatives, it parts the list of ids in two.
proof fn lemma_or_parts_the_ids(ids: Seq<u32>, i: int) -> (k: int)
    requires
        ids.len() > 0,
        0 <= i,
        i + 4 <= crate::query::id_predicates(ids).len(),
        crate::query::id_predicates(ids).subrange(i, i + 4) == " or "@,
    ensures
        0 < k < ids.len(),
        crate::query::id_predicates(ids).take(i) == crate::query::id_predicates(ids.take(k)),
        crate::query::id_predicates(ids).skip(i + 4) == crate::query::id_predicates(ids.skip(k)),
    decreases ids.len(),
{
    reveal_strlit(" or ");
    let all = crate::query::id_predicates(ids);
    let term = "EventID="@ + crate::text::decimal(ids.last() as nat);
    lemma_numerals_have_no_space(ids.last() as nat);
    assert(all.subrange(i, i + 4)[0] == all[i]);
    assert(all.subrange(i, i + 4)[3] == all[i + 3]);
    if ids.len() == 1 {
        assert(all == term);
        assert(term[i] != ' ');
        0
    } else {
        let rest = ids.drop_last();
        let front = crate::query::id_predicates(rest);
        let n = front.len() as int;
        assert(all =~= front + " or "@ + term);
        if i == n {
            assert(all.take(i) =~= front);
            assert(all.skip(i + 4) =~= term);
            let k = ids.len() - 1;
            assert(ids.take(k) =~= rest);
            assert(ids.skip(k) =~= seq![ids.last()]);
            ids_are_alternatives(seq![0u32], seq![0u32], ids.last());
            k
        } else if i > n {
            if i < n + 4 {
                assert(all[i] == " or "@[i - n]);
                assert(i == n + 3);
                assert(all[i + 1] == term[0]);
                assert(all.subrange(i, i + 4)[1] == all[i + 1]);
                reveal_strlit("EventID=");
            } else {
                assert(all[i] == term[i - n - 4]);
                assert(term[i - n - 4] != ' ');
            }
            0
        } else {
            if i + 4 > n {
                // The four characters reach into the joint that follows.
                assert(all[i + 3] == " or "@[i + 3 - n]);
                assert(i == n - 3 || i == n);
                lemma_last_is_no_space(rest);
                if i == n - 3 {
                    assert(all[i + 2] == front[n - 1]);
                    assert(all.subrange(i, i + 4)[2] == all[i + 2]);
                    lemma_last_is_a_digit(rest);
                }
            }
            assert(front.subrange(i, i + 4) =~= all.subrange(i, i + 4));
            let k = lemma_or_parts_the_ids(rest, i);
            assert(all.take(i) =~= front.take(i));
            assert(rest.take(k) =~= ids.take(k));
            assert(ids.skip(k).drop_last() =~= rest.skip(k));
            assert(ids.skip(k).last() == ids.last());
            assert(all.skip(i + 4) =~= front.skip(i + 4) + " or "@ + term);
            k
        }
    }
}

proof fn lemma_last_is_a_digit(ids: Seq<u32>)
    requires
        ids.len() > 0,
    ensures
        crate::query::id_predicates(ids).len() > 0,
        '0' <= crate::query::id_predicates(ids).last() <= '9',
{
    crate::laws::texts::numerals_read_back(ids.last() as nat);
    let digits = crate::text::decimal(ids.last() as nat);
    assert(crate::query::id_predicates(ids).last() == digits[digits.len() - 1]);
}

proof fn lemma_last_is_no_space(ids: Seq<u32>)
    requires
        ids.len() > 0,
    ensures
        crate::query::id_predicates(ids).len() > 0,
        crate::query::id_predicates(ids).last() != ' ',
{
    lemma_last_is_a_digit(ids);
}

/// The query holds of exactly the ids that it was made for.
pub proof fn queries_hold_of_their_ids(ids: Seq<u32>, id: u32)
    requires
        ids.len() > 0,
    ensures
        holds_of(crate::query::id_predicates(ids), id as nat) <==> ids.contains(id),
    decreases ids.len(),
{
    let all = crate::query::id_predicates(ids);
    let term = "EventID="@ + crate::text::decimal(id as nat);
    lemma_numerals_have_no_space(id as nat);
    reveal_strlit(" or ");
    if ids.len() == 1 {
        assert(ids =~= seq![ids[0]]);
        ids_are_alternatives(ids, ids, ids[0]);
        if all == term {
            assert(all.skip("EventID="@.len() as int) =~= crate::text::decimal(id as nat));
            assert(all.skip("EventID="@.len() as int) =~= crate::text::decimal(ids[0] as nat));
            crate::laws::texts::numerals_differ(id as nat, ids[0] as nat);
        }
        assert forall|i: int|
            0 <= i && i + 4 <= all.len() implies #[trigger] all.subrange(i, i + 4) != " or "@ by {
            if all.subrange(i, i + 4) == " or "@ {
                let k = lemma_or_parts_the_ids(ids, i);
            }
        }
        if ids.contains(id) {
            assert(all == term);
        }
    } else {
        let rest = ids.drop_last();
        let last = seq![ids.last()];
        let front = crate::query::id_predicates(rest);
        assert(rest + last =~= ids);
        ids_are_alternatives(rest, last, ids.last());
        let n = front.len() as int;
        assert(all.subrange(n, n + 4) =~= " or "@);
        assert(all[n] == ' ');
        if all == term {
            assert(term[n] != ' ');
        }
        if ids.contains(id) {
            assert(all.take(n) =~= front);
            assert(all.skip(n + 4) =~= crate::query::id_predicates(last));
            queries_hold_of_their_ids(rest, id);
            queries_hold_of_their_ids(last, id);
            let j = choose|j: int| 0 <= j < ids.len() && ids[j] == id;
            if j < rest.len() {
                assert(rest[j] == id);
            } else {
                assert(last[0] == id);
            }
            assert(holds_of(all.take(n), id as nat) || holds_of(all.skip(n + 4), id as nat));
        }
        if holds_of(all, id as nat) {
            let i = choose|i: int|
                0 <= i && i + 4 <= all.len() && #[trigger] all.subrange(i, i + 4) == " or "@ && (
                holds_of(all.take(i), id as nat) || holds_of(all.skip(i + 4), id as nat));
            let k = lemma_or_parts_the_ids(ids, i);
            queries_hold_of_their_ids(ids.take(k), id);
            queries_hold_of_their_ids(ids.skip(k), id);
            if ids.take(k).contains(id) {
                let j = choose|j: int| 0 <= j < k && ids.take(k)[j] == id;
                assert(ids[j] == id);
            } else {
                let j = choose|j: int| 0 <= j < ids.len() - k && ids.skip(k)[j] == id;
                assert(ids[k + j] == id);
            }
        }
    }
}

/// Every character of such a query is one byte long.
proof fn lemma_id_queries_are_ascii(ids: Seq<u32>)
    ensures
        forall|i: int|
            0 <= i < crate::query::id_predicates(ids).len() ==> (
            #[trigger] crate::query::id_predicates(ids)[i] as u32) < 128,
    decreases ids.len(),
{
    if ids.len() > 0 {
        let rest = ids.drop_last();
        lemma_id_queries_are_ascii(rest);
        reveal_strlit("EventID=");
        reveal_strlit(" or ");
        let digits = crate::text::decimal(ids.last() as nat);
        crate::laws::texts::numerals_read_back(ids.last() as nat);
        let term = "EventID="@ + digits;
        assert forall|i: int| 0 <= i < term.len() implies (#[trigger] term[i] as u32) < 128 by {
            if i >= 8 {
                assert(term[i] == digits[i - 8]);
            }
        }
        let all = crate::query::id_predicates(ids);
        let front = crate::query::id_predicates(rest);
        assert forall|i: int| 0 <= i < all.len() implies (#[trigger] all[i] as u32) < 128 by {
            if ids.len() > 1 {
                if i < front.len() {
                    assert(all[i] == front[i]);
                } else if i < front.len() + 4 {
                    assert(all[i] == " or "@[i - front.len()]);
                } else {
                    assert(all[i] == term[i - front.len() - 4]);
                }
            }
        }
    }
}

proof fn lemma_ascii_bytes(text: Seq<char>)
    requires
        forall|i: int| 0 <= i < text.len() ==> (#[trigger] text[i] as u32) < 128,
    ensures
        vstd::utf8::encode_utf8(text).len() == text.len(),
    decreases text.len(),
{
    if text.len() > 0 {
        let rest = text.drop_first();
        assert forall|i: int| 0 <= i < rest.len() implies (#[trigger] rest[i] as u32) < 128 by {
            assert(rest[i] == text[i + 1]);
        }
        assert((text[0] as u32) < 128);
        lemma_ascii_bytes(rest);
    }
}

/// The operator's query is used as it is written, whatever ids are to be kept.
/// Without one, the ids to keep are selected in the query, each of them, where
/// there are any and the query is within 4096 characters; in every other case the
/// query selects everything.
pub proof fn configurations_give_their_query(config: WindowsEventLogConfig)
    ensures
        config.event_query matches Some(query) ==> crate::query::config_query(config) == query@,
        config.event_query is None && config.only_event_ids is None ==> crate::query::config_query(
            config,
        ) == "*"@,
        config.event_query is None && config.only_event_ids is Some ==> ({
            let ids = config.only_event_ids->0@;
            let query = "*[System["@ + crate::query::id_predicates(ids) + "]]"@;
            crate::query::config_query(config) == if ids.len() > 0 && query.len() <= 4096 {
                query
            } else {
                "*"@
            }
        }),
{
    if config.only_event_ids is Some {
        let ids = config.only_event_ids->0@;
        let predicates = crate::query::id_predicates(ids);
        let query = "*[System["@ + predicates + "]]"@;
        lemma_id_queries_are_ascii(ids);
        reveal_strlit("*[System[");
        reveal_strlit("]]");
        assert forall|i: int| 0 <= i < query.len() implies (#[trigger] query[i] as u32) < 128 by {
            if 9 <= i < 9 + predicates.len() {
                assert(query[i] == predicates[i - 9]);
            } else if i >= 9 {
                assert(query[i] == "]]"@[i - 9 - predicates.len()]);
            }
        }
        lemma_ascii_bytes(query);
    }
}

/// Whether a query is one predicate on the system part of any event, of which the
/// alternatives hold of exactly the given ids.
pub open spec fn selects_exactly(query: Seq<char>, ids: Seq<u32>) -> bool {
    exists|alternatives: Seq<char>|
        {
            &&& query == #[trigger] ("*[System["@ + alternatives + "]]"@)
            &&& forall|id: u32| #[trigger] holds_of(alternatives, id as nat) <==> ids.contains(id)
        }
}

/// The query that is built for a configuration with ids to keep selects exactly
/// those ids, or it selects everything and the ids are left to be filtered: the
/// latter only where the selection would be too long.
pub proof fn built_queries_select_the_ids_to_keep(
    config: WindowsEventLogConfig,
    built: Result<String, crate::error::WindowsEventLogError>,
)
    requires
        call_ensures(crate::query::build_xpath_query, (&config,), built),
        config.event_query is None,
        config.only_event_ids is Some,
        config.only_event_ids->0@.len() > 0,
    ensures
        built matches Ok(query) && (selects_exactly(query@, config.only_event_ids->0@) || (query@
            == "*"@ && 11 + crate::query::id_predicates(config.only_event_ids->0@).len() > 4096)),
{
    configurations_give_their_query(config);
    let ids = config.only_event_ids->0@;
    let alternatives = crate::query::id_predicates(ids);
    assert forall|id: u32| #[trigger] holds_of(alternatives, id as nat) <==> ids.contains(id) by {
        queries_hold_of_their_ids(ids, id);
    }
    reveal_strlit("*[System[");
    reveal_strlit("]]");
    let query = "*[System["@ + alternatives + "]]"@;
    assert(query.len() == 11 + alternatives.len());
}

// ---------------------------------------------------------------------------
// Escaping
// ---------------------------------------------------------------------------
/// Escaping goes character by character: a text is escaped as its parts are.
pub proof fn texts_are_escaped_part_by_part(a: Seq<char>, b: Seq<char>)
    ensures
        crate::query::escaped_text(a + b) == crate::query::escaped_text(a)
            + crate::query::escaped_text(b),
        crate::query::escaped_attr(a + b) == crate::query::escaped_attr(a)
            + crate::query::escaped_attr(b),
    decreases b.len(),
{
    if b.len() == 0 {
        assert(a + b =~= a);
        assert(crate::query::escaped_text(a + b) =~= crate::query::escaped_text(a)
            + crate::query::escaped_text(b));
        assert(crate::query::escaped_attr(a + b) =~= crate::query::escaped_attr(a)
            + crate::query::escaped_attr(b));
    } else {
        let rest = b.drop_last();
        texts_are_escaped_part_by_part(a, rest);
        assert((a + b).drop_last() =~= a + rest);
        assert((a + b).last() == b.last());
        assert(crate::query::escaped_text(a + b) =~= crate::query::escaped_text(a)
            + crate::query::escaped_text(b));
        assert(crate::query::escaped_attr(a + b) =~= crate::query::escaped_attr(a)
            + crate::query::escaped_attr(b));
    }
}

/// The characters that mark up are written as entities, in a value the quote too;
/// every other character stays.
pub proof fn characters_are_escaped(c: char)
    ensures
        crate::query::escaped_text(seq!['&']) == seq!['&', 'a', 'm', 'p', ';'],
        crate::query::escaped_text(seq!['<']) == seq!['&', 'l', 't', ';'],
        crate::query::escaped_text(seq!['>']) == seq!['&', 'g', 't', ';'],
        c != '&' && c != '<' && c != '>' ==> crate::query::escaped_text(seq![c]) == seq![c],
        crate::query::escaped_attr(seq!['&']) == seq!['&', 'a', 'm', 'p', ';'],
        crate::query::escaped_attr(seq!['<']) == seq!['&', 'l', 't', ';'],
        crate::query::escaped_attr(seq!['>']) == seq!['&', 'g', 't', ';'],
        crate::query::escaped_attr(seq!['"']) == seq!['&', 'q', 'u', 'o', 't', ';'],
        c != '&' && c != '<' && c != '>' && c != '"' ==> crate::query::escaped_attr(seq![c])
            == seq![c],
        crate::query::escaped_text(Seq::empty()) == Seq::<char>::empty(),
        crate::query::escaped_attr(Seq::empty()) == Seq::<char>::empty(),
{
    reveal_strlit("&amp;");
    reveal_strlit("&lt;");
    reveal_strlit("&gt;");
    reveal_strlit("&quot;");
    lemma_one_character(c);
    lemma_one_character('&');
    lemma_one_character('<');
    lemma_one_character('>');
    lemma_one_character('"');
}

proof fn lemma_one_character(c: char)
    ensures
        crate::query::escaped_text(seq![c]) == crate::query::text_entity(c),
        crate::query::escaped_attr(seq![c]) == crate::query::attr_entity(c),
{
    let one = seq![c];
    reveal_with_fuel(crate::query::escaped_text, 2);
    reveal_with_fuel(crate::query::escaped_attr, 2);
    assert(one.drop_last() =~= Seq::<char>::empty());
    assert(crate::query::escaped_text(one) =~= crate::query::text_entity(c));
    assert(crate::query::escaped_attr(one) =~= crate::query::attr_entity(c));
}

// ---------------------------------------------------------------------------
// Subscriptions
// ---------------------------------------------------------------------------
/// Resuming by time, a wildcard query is replaced by one that selects the events
/// from the floor on, that instant included.
pub proof fn wildcards_select_from_the_floor_on(
    factory: FactoryView,
    resume: ResumeState,
    secs: int,
    nanos: int,
)
    requires
        resume.rung is TimeAdvance,
        resume.floor_parts() == Some((secs, nanos)),
        factory.base_query == "*"@,
    ensures
        factory.query(resume).0 == "*[System[TimeCreated[@SystemTime>='"@
            + crate::time::query_stamp(secs, nanos) + "']]]"@,
        factory.query(resume).1 == QueryOrigin::Generated,
{
}

/// Resuming by time with an operator's path query, that query selects, untouched
/// but for the escaping, and what came before the floor is suppressed: the two
/// together keep what the operator selects, from that instant on.
pub proof fn operators_select_and_the_past_is_suppressed(
    factory: FactoryView,
    resume: ResumeState,
    secs: int,
    nanos: int,
)
    requires
        resume.rung is TimeAdvance,
        resume.floor_parts() == Some((secs, nanos)),
        factory.base_query != "*"@,
        !crate::text::opens_with(factory.base_query, '<'),
    ensures
        ({
            let path = crate::query::escaped_attr(factory.channel);
            factory.query(resume).0 == "<QueryList><Query Id=\"0\" Path=\""@ + path
                + "\"><Select Path=\""@ + path + "\">"@ + crate::query::escaped_text(
                factory.base_query,
            ) + "</Select><Suppress Path=\""@ + path
                + "\">*[System[TimeCreated[@SystemTime&lt;'"@ + crate::time::query_stamp(
                secs,
                nanos,
            ) + "']]]</Suppress></Query></QueryList>"@
        }),
        factory.query(resume).1 == QueryOrigin::Generated,
{
}

/// In every other case the configured query is used, under its own origin: off the
/// windows, without a floor, and where it is a structured query already.
pub proof fn other_resumes_use_the_configured_query(factory: FactoryView, resume: ResumeState)
    requires
        resume.rung !is TimeAdvance || resume.floor_parts() is None || (factory.base_query != "*"@
            && crate::text::opens_with(factory.base_query, '<')),
    ensures
        factory.query(resume) == (factory.base_query, factory.base_origin),
{
}

/// The bookmark is passed exactly where there is one, it marks a position, and the
/// channel is on one of the three rungs that go by it.
pub proof fn bookmarks_are_used_on_the_low_rungs(
    factory: FactoryView,
    positioned: bool,
    handle: i64,
    resume: ResumeState,
)
    ensures
        factory.first_attempt(positioned, handle, resume).use_bookmark <==> positioned && handle
            != 0 && (resume.rung == Rung::Bookmark || resume.rung == Rung::IsolateOne
            || resume.rung == Rung::SkipRecord),
{
}

/// Where a subscription starts, by its flags: strictly after the bookmark (65539)
/// where that is passed; else with future events (1) on the top rung, and on a
/// first start that does not read what is there; else with the oldest record (2).
pub proof fn flags_name_the_start(
    factory: FactoryView,
    positioned: bool,
    handle: i64,
    resume: ResumeState,
)
    ensures
        ({
            let attempt = factory.first_attempt(positioned, handle, resume);
            let future = resume.rung == Rung::FutureOnly || (resume.last_event_time is None
                && !factory.read_existing_events);
            &&& attempt.use_bookmark <==> attempt.flags == 65539
            &&& !attempt.use_bookmark ==> attempt.flags == if future {
                1u32
            } else {
                2u32
            }
        }),
{
}

/// A rejected query is followed by the configured one from the same start, and by
/// no third attempt; and that second attempt is made exactly where the first query
/// was composed here as a structured one.
pub proof fn composed_queries_get_a_second_chance(
    factory: FactoryView,
    positioned: bool,
    handle: i64,
    resume: ResumeState,
)
    ensures
        ({
            let first = factory.first_attempt(positioned, handle, resume);
            let second = factory.base_attempt(first.use_bookmark, first.flags);
            &&& first.query == factory.query(resume).0
            &&& first.origin == factory.query(resume).1
            &&& first.falls_back <==> first.origin == QueryOrigin::Generated
                && crate::text::opens_with(first.query, '<')
            &&& second.query == factory.base_query
            &&& second.origin == factory.base_origin
            &&& second.use_bookmark == first.use_bookmark
            &&& second.flags == first.flags
            &&& !second.falls_back
        }),
{
}

} // verus!
