//! Account names for security identifiers.

use vstd::prelude::*;

use crate::shared_cache::SharedCaches;
use crate::text::decode_utf16_lossy;

verus! {

/// Resolves security identifiers to account names, remembering every answer.
pub struct SidResolver;

/// The entries after an account was resolved: asked for, and stored where it had
/// not been known.
pub open spec fn accounts_after(
    entries: Seq<((Seq<char>, u32), Option<String>)>,
    sid: Seq<char>,
    answer: Option<String>,
) -> Seq<((Seq<char>, u32), Option<String>)> {
    let key = crate::shared_cache::name_key(sid);
    if crate::cache::is_resident(entries, key) {
        crate::cache::touched(entries, key)
    } else {
        crate::cache::stored(
            entries,
            crate::shared_cache::SID_CACHE_CAPACITY as nat,
            key,
            answer,
        )
    }
}

/// Whether an account was resolved with this outcome, where `answer` is what the
/// system says.
pub open spec fn is_resolution(
    before: Seq<((Seq<char>, u32), Option<String>)>,
    sid: Seq<char>,
    after: Seq<((Seq<char>, u32), Option<String>)>,
    name: Option<String>,
    answer: Option<String>,
) -> bool {
    &&& after == accounts_after(before, sid, answer)
    &&& name == match crate::cache::value_of(before, crate::shared_cache::name_key(sid)) {
        Some(known) => known,
        None => answer,
    }
}

impl SidResolver {
    pub fn new() -> (resolver: SidResolver)
        ensures
            resolver == SidResolver,
    {
        SidResolver
    }

    /// What is remembered of an account: its name, or that it has none. Nothing
    /// where the system has to be asked.
    pub fn recall<P>(&self, caches: &mut SharedCaches<P>, sid_string: &str) -> (known: Option<
        Option<String>,
    >)
        requires
            old(caches).wf(),
        ensures
            final(caches).wf(),
            final(caches).publishers == old(caches).publishers,
            final(caches).formats == old(caches).formats,
            final(caches).sids@ == crate::cache::touched(
                old(caches).sids@,
                crate::shared_cache::name_key(sid_string@),
            ),
            known == crate::cache::value_of(
                old(caches).sids@,
                crate::shared_cache::name_key(sid_string@),
            ),
    {
        caches.sid_lookup(sid_string)
    }

    /// Remember what the system said of an account, and hand it on.
    pub fn remember<P>(
        &self,
        caches: &mut SharedCaches<P>,
        sid_string: &str,
        answer: Option<String>,
    ) -> (name: Option<String>)
        requires
            old(caches).wf(),
        ensures
            final(caches).wf(),
            final(caches).publishers == old(caches).publishers,
            final(caches).formats == old(caches).formats,
            final(caches).sids@ == crate::cache::stored(
                old(caches).sids@,
                crate::shared_cache::SID_CACHE_CAPACITY as nat,
                crate::shared_cache::name_key(sid_string@),
                answer,
            ),
            name == answer,
    {
        let kept: Option<String> = match &answer {
            Some(name) => Some(name.clone()),
            None => None,
        };
        caches.sid_store(sid_string, kept);
        answer
    }

    /// The name of an account, as `DOMAIN\name`, or nothing where it has none.
    /// The system is asked, through `lookup`, only where no answer is
    /// remembered; the answer then is.
    pub fn resolve<P, F>(
        &self,
        caches: &mut SharedCaches<P>,
        sid_string: &str,
        lookup: F,
    ) -> (name: Option<String>) where F: FnOnce() -> Option<String>
        requires
            old(caches).wf(),
            !crate::cache::is_resident(
                old(caches).sids@,
                crate::shared_cache::name_key(sid_string@),
            ) ==> lookup.requires(()),
        ensures
            final(caches).wf(),
            final(caches).publishers == old(caches).publishers,
            final(caches).formats == old(caches).formats,
            exists|answer: Option<String>|
                (!crate::cache::is_resident(
                    old(caches).sids@,
                    crate::shared_cache::name_key(sid_string@),
                ) ==> lookup.ensures((), answer)) && #[trigger] is_resolution(
                    old(caches).sids@,
                    sid_string@,
                    final(caches).sids@,
                    name,
                    answer,
                ),
    {
        let ghost start = caches.sids@;
        let ghost none: Option<String> = None;
        if let Some(known) = self.recall(caches, sid_string) {
            assert(is_resolution(start, sid_string@, caches.sids@, known, none));
            return known;
        }
        let answer: Option<String> = lookup();
        let ghost given = answer;
        let name = self.remember(caches, sid_string, answer);
        assert(is_resolution(start, sid_string@, caches.sids@, name, given));
        name
    }
}

// ---------------------------------------------------------------------------
// Asking the system
// ---------------------------------------------------------------------------
/// The next thing to do to learn an account's name.
#[derive(Debug, Clone, Copy, PartialEq, Eq, Structural)]
pub enum SidAction {
    /// Convert the text to a binary identifier.
    Convert,
    /// Ask how long the names are.
    Measure,
    /// Ask for the names, with room for this many units.
    Fetch { name_len: u32, domain_len: u32 },
    /// Free the binary identifier.
    Free,
    /// Nothing: the lookup is over.
    Done,
}

/// How an action went.
#[derive(Debug)]
pub enum SidEvent {
    /// The text was converted, or is no identifier.
    Converted(bool),
    /// The lengths of the names.
    Measured { name_len: u32, domain_len: u32 },
    /// The names, in UTF-16.
    Fetched { name: Vec<u16>, domain: Vec<u16> },
    /// The names could not be had.
    FetchFailed,
    /// The binary identifier was freed.
    Freed,
}

/// One lookup in progress.
#[derive(Debug)]
pub struct SidLookup {
    pub action: SidAction,
    /// The name, once it is known.
    pub account: Option<String>,
}

/// The name of an account: with its domain in front, where it has one.
pub open spec fn qualified_name(name: Seq<char>, domain: Seq<char>) -> Seq<char> {
    if domain.len() == 0 {
        name
    } else {
        domain + seq!['\\'] + name
    }
}

/// The action that follows.
pub open spec fn next_sid_action(action: SidAction, event: SidEvent) -> SidAction {
    match (action, event) {
        (SidAction::Convert, SidEvent::Converted(true)) => SidAction::Measure,
        (SidAction::Measure, SidEvent::Measured { name_len, domain_len }) => if name_len == 0 {
            SidAction::Free
        } else {
            SidAction::Fetch { name_len, domain_len }
        },
        (SidAction::Fetch { .. }, SidEvent::Fetched { .. }) => SidAction::Free,
        (SidAction::Fetch { .. }, SidEvent::FetchFailed) => SidAction::Free,
        _ => SidAction::Done,
    }
}

/// The name once an action is over: only fetched names make one.
pub open spec fn account_after(
    action: SidAction,
    event: SidEvent,
    account: Option<Seq<char>>,
) -> Option<Seq<char>> {
    match (action, event) {
        (SidAction::Fetch { .. }, SidEvent::Fetched { name, domain }) => Some(
            qualified_name(
                crate::text::utf16_lossy(name@),
                crate::text::utf16_lossy(domain@),
            ),
        ),
        _ => account,
    }
}

fn qualify(name: &Vec<u16>, domain: &Vec<u16>) -> (account: String)
    ensures
        account@ == qualified_name(
            crate::text::utf16_lossy(name@),
            crate::text::utf16_lossy(domain@),
        ),
{
    let name_text = decode_utf16_lossy(name);
    let domain_text = decode_utf16_lossy(domain);
    if domain_text.as_str().is_empty() {
        name_text
    } else {
        let mut account = domain_text;
        account.push('\\');
        account.append(name_text.as_str());
        assert(account@ =~= crate::text::utf16_lossy(domain@) + seq!['\\']
            + crate::text::utf16_lossy(name@));
        account
    }
}

impl SidLookup {
    /// A lookup at its first action.
    pub fn start() -> (lookup: SidLookup)
        ensures
            lookup.action == SidAction::Convert,
            lookup.account is None,
    {
        SidLookup { action: SidAction::Convert, account: None }
    }

    /// Move on after an action. Returns what to do next.
    pub fn advance(&mut self, event: SidEvent) -> (action: SidAction)
        ensures
            final(self).action == next_sid_action(old(self).action, event),
            crate::status::opt_chars(final(self).account) == account_after(
                old(self).action,
                event,
                crate::status::opt_chars(old(self).account),
            ),
            action == final(self).action,
    {
        let action = match (self.action, event) {
            (SidAction::Convert, SidEvent::Converted(true)) => SidAction::Measure,
            (SidAction::Measure, SidEvent::Measured { name_len, domain_len }) => {
                if name_len == 0 {
                    SidAction::Free
                } else {
                    SidAction::Fetch { name_len, domain_len }
                }
            },
            (SidAction::Fetch { .. }, SidEvent::Fetched { name, domain }) => {
                self.account = Some(qualify(&name, &domain));
                SidAction::Free
            },
            (SidAction::Fetch { .. }, SidEvent::FetchFailed) => SidAction::Free,
            _ => SidAction::Done,
        };
        self.action = action;
        action
    }
}

/// The action after a run of events.
pub open spec fn sid_action_at(events: Seq<SidEvent>) -> SidAction
    decreases events.len(),
{
    if events.len() == 0 {
        SidAction::Convert
    } else {
        next_sid_action(sid_action_at(events.drop_last()), events.last())
    }
}

/// The number of times that the binary identifier was to be freed.
pub open spec fn frees(events: Seq<SidEvent>) -> nat
    decreases events.len(),
{
    if events.len() == 0 {
        0
    } else {
        frees(events.drop_last()) + if sid_action_at(events) == SidAction::Free {
            1nat
        } else {
            0
        }
    }
}

/// Whether each action was answered as such an action is.
pub open spec fn answers_fit(events: Seq<SidEvent>) -> bool {
    forall|i: int|
        0 <= i < events.len() ==> match sid_action_at(events.take(i)) {
            SidAction::Convert => (#[trigger] events[i]) is Converted,
            SidAction::Measure => events[i] is Measured,
            SidAction::Fetch { .. } => events[i] is Fetched || events[i] is FetchFailed,
            SidAction::Free => events[i] is Freed,
            SidAction::Done => true,
        }
}

/// However a lookup goes, an identifier that was converted is freed exactly
/// once, and one that was not is never freed.
pub proof fn converted_identifiers_are_freed_once(events: Seq<SidEvent>)
    requires
        answers_fit(events),
        sid_action_at(events) == SidAction::Done,
    ensures
        events.len() > 0,
        frees(events) == if events[0] == SidEvent::Converted(true) {
            1nat
        } else {
            0
        },
{
    lemma_frees(events);
}

proof fn lemma_frees(events: Seq<SidEvent>)
    requires
        answers_fit(events),
    ensures
        ({
            let action = sid_action_at(events);
            let converted = events.len() > 0 && events[0] == SidEvent::Converted(true);
            &&& events.len() == 0 <==> action == SidAction::Convert
            &&& frees(events) == if converted && (action == SidAction::Free || action
                == SidAction::Done) {
                1nat
            } else {
                0
            }
            &&& !converted && events.len() > 0 ==> action == SidAction::Done
        }),
    decreases events.len(),
{
    if events.len() > 0 {
        let before = events.drop_last();
        assert forall|i: int| 0 <= i < before.len() implies match sid_action_at(before.take(i)) {
            SidAction::Convert => (#[trigger] before[i]) is Converted,
            SidAction::Measure => before[i] is Measured,
            SidAction::Fetch { .. } => before[i] is Fetched || before[i] is FetchFailed,
            SidAction::Free => before[i] is Freed,
            SidAction::Done => true,
        } by {
            assert(before.take(i) =~= events.take(i));
            assert(before[i] == events[i]);
        }
        lemma_frees(before);
        let last = events.len() - 1;
        assert(events.take(last) =~= before);
        assert(events[last] == events.last());
        if before.len() > 0 {
            assert(before[0] == events[0]);
        }
    }
}

/// An account is asked for once: while the first answer is remembered, also that
/// there is no name, a second resolution gives it again and asks nobody. `later`
/// is the cache as the second finds it.
pub proof fn accounts_are_asked_for_once(
    before: Seq<((Seq<char>, u32), Option<String>)>,
    between: Seq<((Seq<char>, u32), Option<String>)>,
    later: Seq<((Seq<char>, u32), Option<String>)>,
    after: Seq<((Seq<char>, u32), Option<String>)>,
    sid: Seq<char>,
    first: (Option<String>, Option<String>),
    second: (Option<String>, Option<String>),
)
    requires
        crate::cache::keys_differ(before),
        is_resolution(before, sid, between, first.0, first.1),
        crate::cache::value_of(later, crate::shared_cache::name_key(sid))
            == crate::cache::value_of(between, crate::shared_cache::name_key(sid)),
        is_resolution(later, sid, after, second.0, second.1),
    ensures
        crate::cache::is_resident(later, crate::shared_cache::name_key(sid)),
        second.0 == first.0,
        !crate::cache::is_resident(before, crate::shared_cache::name_key(sid)) ==> first.0
            == first.1,
{
    let key = crate::shared_cache::name_key(sid);
    crate::cache::looking_up_changes_no_value(before, key, key);
    crate::cache::stored_values_are_found(
        before,
        crate::shared_cache::SID_CACHE_CAPACITY as nat,
        key,
        first.1,
    );
}

} // verus!
