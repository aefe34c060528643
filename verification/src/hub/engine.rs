//! The quota-fulfilment engine.
//!
//! One request is a short conversation between the engine and whoever drives
//! it. The engine hands out an [`Action`] (ask the generative backend, search
//! the catalog, finish, abort); the driver performs it and reports what came
//! of it as an [`Event`]; the engine decides what is next. All decisions are
//! made here, and the number of generation calls one request can cause is
//! bounded by [`MAX_RETRIES`] whatever the backends return.

use vstd::prelude::*;
use vstd::string::*;
use crate::models::{AppError, Config, LLMResult, MusicEra, MusicGenre, Song};
use crate::text::{decimal, same_text, to_decimal};
use crate::utils::{
    dedupe, distinct, generate_rand_id, is_ascii_alphanumeric, lemma_dedupe_distinct,
    lemma_dedupe_extends, lemma_dedupe_identities, lemma_dedupe_of_distinct, remove_duplicates,
    ID_LENGTH,
};

verus! {

/// How many attempts one request may make.
pub const MAX_RETRIES: usize = 3;

/// One attempt as the ledger records it: its number in the engine's running
/// count of attempts, and how many tracks it asked for.
#[derive(Debug, Clone, Copy, PartialEq, Eq, Structural)]
pub struct PromptCall {
    pub count: u32,
    pub track_count: u16,
}

/// The text that asks the generative backend for `track_count` tracks of the
/// given era and genre that reflect `expression`, as a bare JSON array of
/// objects with the fields artist, title, album, year and genre.
pub open spec fn prompt_text(
    track_count: u16,
    era: MusicEra,
    genre: MusicGenre,
    expression: Seq<char>,
) -> Seq<char> {
    "generate "@ + decimal(track_count as nat)
        + " data in json array having [artist, title, album, year, genre] for \n            "@
        + era.label() + " songs in "@ + genre.label()
        + " genre that reflect the feeling of the statement '"@ + expression
        + "'. I only want the raw json \n            not md format and nothing else in the response so its parsable"@
}

/// Renders the request for `track_count` tracks.
pub fn build_prompt(track_count: u16, era: MusicEra, genre: MusicGenre, expression: &str) -> (r:
    String)
    ensures
        r@ == prompt_text(track_count, era, genre, expression@),
{
    let mut r = String::from_str("generate ");
    let count = to_decimal(track_count as u64);
    r.append(count.as_str());
    r.append(
        " data in json array having [artist, title, album, year, genre] for \n            ",
    );
    r.append(era.as_str());
    r.append(" songs in ");
    r.append(genre.as_str());
    r.append(" genre that reflect the feeling of the statement '");
    r.append(expression);
    r.append(
        "'. I only want the raw json \n            not md format and nothing else in the response so its parsable",
    );
    r
}

/// What the ledger holds, as a value: for each request id, in the order in
/// which the ids were first seen, the attempts made under it, oldest first.
pub type Ledger = Seq<(Seq<char>, Seq<PromptCall>)>;

/// Some entry of the ledger is kept under `id`.
pub open spec fn has_id(log: Ledger, id: Seq<char>) -> bool {
    exists|i: int| 0 <= i < log.len() && (#[trigger] log[i]).0 == id
}

/// `i` is the first entry of the ledger kept under `id`.
pub open spec fn is_first_with_id(log: Ledger, id: Seq<char>, i: int) -> bool {
    &&& 0 <= i < log.len()
    &&& log[i].0 == id
    &&& forall|k: int| 0 <= k < i ==> (#[trigger] log[k]).0 != id
}

/// No two entries of the ledger are kept under the same id.
pub open spec fn ids_distinct(log: Ledger) -> bool {
    forall|i: int, j: int| 0 <= i < j < log.len() ==> (#[trigger] log[i]).0 != (#[trigger] log[j]).0
}

/// The attempts that the ledger holds under `id`: none if the id is unknown.
pub open spec fn attempts_of(log: Ledger, id: Seq<char>) -> Seq<PromptCall> {
    if has_id(log, id) {
        log[choose|i: int| is_first_with_id(log, id, i)].1
    } else {
        Seq::empty()
    }
}

/// The ledger after one more attempt under `id`: appended to the attempts of
/// that id where the ledger knows it, else kept under a new entry at the end.
pub open spec fn recorded(log: Ledger, id: Seq<char>, call: PromptCall) -> Ledger {
    if has_id(log, id) {
        let i = choose|i: int| is_first_with_id(log, id, i);
        log.update(i, (id, log[i].1.push(call)))
    } else {
        log.push((id, seq![call]))
    }
}

/// Where one request stands, as a value.
pub struct RetryState {
    /// The id under which the ledger keeps the request's attempts.
    pub id: Seq<char>,
    /// How many attempts have been completed without meeting the quota.
    pub retries: usize,
    /// The mood expression.
    pub prompt: Seq<char>,
    /// How many tracks are still wanted.
    pub track_count: u16,
    pub music_genre: MusicGenre,
    pub music_era: MusicEra,
}

/// Where one request stands: the retry state that the engine updates from
/// attempt to attempt. It lives as long as the request does.
#[derive(Debug)]
pub struct PromptConfig<'a> {
    id: String,
    retries: usize,
    prompt: &'a str,
    track_count: u16,
    music_genre: MusicGenre,
    music_era: MusicEra,
}

impl<'a> View for PromptConfig<'a> {
    type V = RetryState;

    closed spec fn view(&self) -> RetryState {
        RetryState {
            id: self.id@,
            retries: self.retries,
            prompt: self.prompt@,
            track_count: self.track_count,
            music_genre: self.music_genre,
            music_era: self.music_era,
        }
    }
}

impl<'a> PromptConfig<'a> {
    /// The request's id in the ledger.
    pub fn id(&self) -> (r: &str)
        ensures
            r@ == self@.id,
    {
        self.id.as_str()
    }

    /// How many attempts have been completed without meeting the quota.
    pub fn retries(&self) -> (r: usize)
        ensures
            r == self@.retries,
    {
        self.retries
    }

    /// How many tracks are still wanted.
    pub fn track_count(&self) -> (r: u16)
        ensures
            r == self@.track_count,
    {
        self.track_count
    }
}

/// What came of the action that the engine asked for last.
#[derive(Debug, PartialEq)]
pub enum Event {
    /// The call to the generative backend failed, with its message.
    GenerationFailed(String),
    /// The backend's answer could not be read as descriptors, with the reason.
    ParseFailed(String),
    /// The backend's answer, read as descriptors.
    Descriptors(Vec<LLMResult>),
    /// The catalog search failed, with its message.
    SearchFailed(String),
    /// What the catalog search resolved the descriptors to.
    Tracks(Vec<Song>),
}

/// What the engine wants done next.
#[derive(Debug, PartialEq)]
pub enum Action {
    /// Send this prompt to the generative backend.
    Generate(String),
    /// Resolve these descriptors against the catalog.
    Search(Vec<LLMResult>),
    /// The request is over: the result buffer is its result.
    Finish,
    /// The request is over: it failed, and the result buffer is void.
    Abort(AppError),
}

/// An action as a value.
pub enum Step {
    Generate(Seq<char>),
    Search(Seq<LLMResult>),
    Finish,
    Abort(AppError),
}

impl View for Action {
    type V = Step;

    open spec fn view(&self) -> Step {
        match *self {
            Action::Generate(prompt) => Step::Generate(prompt@),
            Action::Search(descriptors) => Step::Search(descriptors@),
            Action::Finish => Step::Finish,
            Action::Abort(error) => Step::Abort(error),
        }
    }
}

/// How many tracks an attempt added: those it found, less the duplicates
/// that were removed from the buffer afterwards, and never less than none.
pub open spec fn net_added(buffer: Seq<Song>, found: Seq<Song>) -> nat {
    let removed = (buffer + found).len() - dedupe(buffer + found).len();
    if found.len() >= removed {
        (found.len() - removed) as nat
    } else {
        0
    }
}

/// How many tracks are still wanted after an attempt added `net`.
pub open spec fn remaining_after(remaining: u16, net: nat) -> u16 {
    if net >= remaining {
        0
    } else {
        (remaining - net) as u16
    }
}

/// What beginning an attempt comes to: nothing more if the budget is used up,
/// else the prompt for the tracks that are still wanted.
pub open spec fn attempt(state: RetryState) -> Step {
    if state.retries >= MAX_RETRIES {
        Step::Finish
    } else {
        Step::Generate(
            prompt_text(state.track_count, state.music_era, state.music_genre, state.prompt),
        )
    }
}

/// The outcome of one event: the retry state and the result buffer after it,
/// and what is to be done next.
pub struct Transition {
    pub state: RetryState,
    pub buffer: Seq<Song>,
    pub step: Step,
}

/// The engine's decision on one event.
///
/// With the budget used up, the request is over whatever is reported. A
/// failure of either backend, or an answer that cannot be read, aborts the
/// request. Descriptors go to the catalog search. Resolved tracks are appended
/// to the buffer and duplicates removed; if the attempt added exactly the
/// tracks that were wanted, the request is finished; else that many fewer are
/// wanted, one more retry is counted, and the next attempt begins.
pub open spec fn transition(state: RetryState, buffer: Seq<Song>, event: Event) -> Transition {
    if state.retries >= MAX_RETRIES {
        Transition { state, buffer, step: Step::Finish }
    } else {
        match event {
            Event::GenerationFailed(message) => Transition {
                state,
                buffer,
                step: Step::Abort(AppError::GenerationFailed(message)),
            },
            Event::ParseFailed(message) => Transition {
                state,
                buffer,
                step: Step::Abort(AppError::ParseFailed(message)),
            },
            Event::Descriptors(descriptors) => Transition {
                state,
                buffer,
                step: Step::Search(descriptors@),
            },
            Event::SearchFailed(message) => Transition {
                state,
                buffer,
                step: Step::Abort(AppError::SearchFailed(message)),
            },
            Event::Tracks(found) => {
                let merged = dedupe(buffer + found@);
                let net = net_added(buffer, found@);
                if net == state.track_count {
                    Transition { state, buffer: merged, step: Step::Finish }
                } else {
                    let next = RetryState {
                        retries: (state.retries + 1) as usize,
                        track_count: remaining_after(state.track_count, net),
                        ..state
                    };
                    Transition { state: next, buffer: merged, step: attempt(next) }
                }
            },
        }
    }
}

/// The ledger after a step of a request in `state`: an attempt that begins is
/// recorded under the request's id with the new count, anything else leaves
/// the ledger as it is.
pub open spec fn ledger_after(log: Ledger, counter: u32, state: RetryState, step: Step) -> Ledger {
    if step is Generate {
        recorded(
            log,
            state.id,
            PromptCall { count: (counter + 1) as u32, track_count: state.track_count },
        )
    } else {
        log
    }
}

/// The count of attempts after a step.
pub open spec fn counter_after(counter: u32, step: Step) -> int {
    if step is Generate {
        counter + 1
    } else {
        counter as int
    }
}

/// The texts of a list of strings.
pub open spec fn texts(lines: Seq<String>) -> Seq<Seq<char>> {
    lines.map_values(|line: String| line@)
}

/// A copy of the ledger, as a value.
pub open spec fn ledger_of(entries: Seq<(String, Vec<PromptCall>)>) -> Ledger {
    entries.map_values(|e: (String, Vec<PromptCall>)| (e.0@, e.1@))
}

/// The line of the summary that opens the attempts of one request.
pub open spec fn id_line(id: Seq<char>) -> Seq<char> {
    "\nID: "@ + id
}

/// The line of the summary for one attempt.
pub open spec fn call_line(call: PromptCall) -> Seq<char> {
    "iteration number "@ + decimal(call.count as nat) + " for "@ + decimal(
        call.track_count as nat,
    ) + " tracks"@
}

/// The lines of the summary for one request: its id, then its attempts.
pub open spec fn entry_lines(id: Seq<char>, calls: Seq<PromptCall>) -> Seq<Seq<char>> {
    seq![id_line(id)] + calls.map_values(|call: PromptCall| call_line(call))
}

/// The summary of a ledger, line by line: request after request in the
/// ledger's order.
pub open spec fn summary_lines(log: Ledger) -> Seq<Seq<char>>
    decreases log.len(),
{
    if log.len() == 0 {
        Seq::empty()
    } else {
        summary_lines(log.drop_last()) + entry_lines(log.last().0, log.last().1)
    }
}

/// The ledger only grows, and only at its end: recording an attempt under an
/// id appends it to the attempts of that id and leaves those of every other
/// id as they are. It keeps the ids apart if they were.
pub proof fn lemma_recorded_appends(log: Ledger, id: Seq<char>, call: PromptCall, other: Seq<char>)
    ensures
        attempts_of(recorded(log, id, call), id) == attempts_of(log, id).push(call),
        other != id ==> attempts_of(recorded(log, id, call), other) == attempts_of(log, other),
        ids_distinct(log) ==> ids_distinct(recorded(log, id, call)),
        has_id(recorded(log, id, call), other) <==> other == id || has_id(log, other),
{
    let after = recorded(log, id, call);
    let n = log.len() as int;
    // Where the id was first kept, it is first kept still; a new id is kept last.
    let at = if has_id(log, id) {
        lemma_first_exists(log, id, choose|i: int| 0 <= i < n && (#[trigger] log[i]).0 == id);
        choose|i: int| is_first_with_id(log, id, i)
    } else {
        n
    };
    assert forall|k: int| 0 <= k < n implies (#[trigger] after[k]).0 == log[k].0 by {}
    assert(after[at].0 == id);
    assert(is_first_with_id(after, id, at)) by {
        assert forall|k: int| 0 <= k < at implies (#[trigger] after[k]).0 != id by {
            assert(log[k].0 == after[k].0);
        }
    }
    lemma_first_is_unique(after, id, at);
    assert(attempts_of(after, id) =~= attempts_of(log, id).push(call));
    if has_id(log, other) {
        let k = choose|k: int| 0 <= k < n && (#[trigger] log[k]).0 == other;
        assert(after[k].0 == other);
        if other != id {
            lemma_first_exists(log, other, k);
            let a = choose|a: int| is_first_with_id(log, other, a);
            assert(is_first_with_id(after, other, a)) by {
                assert(after[a].0 == log[a].0);
                assert forall|j: int| 0 <= j < a implies (#[trigger] after[j]).0 != other by {
                    assert(log[j].0 == after[j].0);
                }
            }
            lemma_first_is_unique(after, other, a);
        }
    }
    if has_id(after, other) && other != id {
        let k = choose|k: int| 0 <= k < after.len() && (#[trigger] after[k]).0 == other;
        assert(log[k].0 == other);
    }
    if ids_distinct(log) {
        assert forall|a: int, b: int| 0 <= a < b < after.len() implies (#[trigger] after[a]).0
            != (#[trigger] after[b]).0 by {
            if b < n {
                assert(log[a].0 != log[b].0);
            } else {
                assert(log[a].0 == after[a].0);
            }
        }
    }
}

/// The first entry kept under an id is the one that `attempts_of` and
/// `recorded` go by.
proof fn lemma_first_is_unique(log: Ledger, id: Seq<char>, at: int)
    requires
        is_first_with_id(log, id, at),
    ensures
        has_id(log, id),
        (choose|i: int| is_first_with_id(log, id, i)) == at,
{
    assert(log[at].0 == id);
    let i = choose|i: int| is_first_with_id(log, id, i);
    if i < at {
        assert(log[i].0 != id);
    } else if at < i {
        assert(log[at].0 != id);
    }
}

/// An id that the ledger holds has a first entry.
proof fn lemma_first_exists(log: Ledger, id: Seq<char>, at: int)
    requires
        0 <= at < log.len(),
        log[at].0 == id,
    ensures
        exists|i: int| is_first_with_id(log, id, i),
    decreases at,
{
    if exists|k: int| 0 <= k < at && (#[trigger] log[k]).0 == id {
        let k = choose|k: int| 0 <= k < at && (#[trigger] log[k]).0 == id;
        lemma_first_exists(log, id, k);
    } else {
        assert(is_first_with_id(log, id, at));
    }
}

/// One entry of the ledger.
struct LedgerEntry {
    id: String,
    calls: Vec<PromptCall>,
}

/// The engine: its configuration, the ledger of every attempt it has made,
/// and the running count of those attempts.
pub struct AppEngine<'a> {
    config: Config<'a>,
    prompt_call: Vec<LedgerEntry>,
    prompt_counter: u32,
}

impl<'a> AppEngine<'a> {
    /// The ledger as a value.
    pub closed spec fn log(&self) -> Ledger {
        self.prompt_call@.map_values(|e: LedgerEntry| (e.id@, e.calls@))
    }

    /// How many attempts the engine has made since it was set up.
    pub closed spec fn counter(&self) -> u32 {
        self.prompt_counter
    }

    /// What the engine was set up with.
    pub closed spec fn settings(&self) -> Config<'a> {
        self.config
    }

    /// The ledger keeps each request id once. Every engine that `init` made
    /// and that only this module's functions changed is well formed.
    pub open spec fn well_formed(&self) -> bool {
        ids_distinct(self.log())
    }

    /// An engine that has made no attempt yet.
    pub fn init(config: Config<'a>) -> (r: AppEngine<'a>)
        ensures
            r.settings() == config,
            r.counter() == 0,
            r.log() == Seq::<(Seq<char>, Seq<PromptCall>)>::empty(),
            r.well_formed(),
    {
        let r = AppEngine { config, prompt_call: Vec::new(), prompt_counter: 0 };
        assert(r.log() =~= Seq::<(Seq<char>, Seq<PromptCall>)>::empty());
        r
    }

    /// The running count of attempts.
    pub fn prompt_counter(&self) -> (r: u32)
        ensures
            r == self.counter(),
    {
        self.prompt_counter
    }

    /// How many tracks a request is to bring.
    pub fn track_count(&self) -> (r: u16)
        ensures
            r == self.settings().track_count,
    {
        self.config.track_count
    }

    /// Where the ledger keeps `id`: the position of its entry, or the number
    /// of entries if it has none.
    fn find_entry(&self, id: &str) -> (i: usize)
        ensures
            i <= self.log().len(),
            i < self.log().len() ==> is_first_with_id(self.log(), id@, i as int),
            i == self.log().len() ==> !has_id(self.log(), id@),
    {
        let mut i: usize = 0;
        while i < self.prompt_call.len()
            invariant
                i <= self.prompt_call@.len(),
                self.log().len() == self.prompt_call@.len(),
                forall|k: int| 0 <= k < i ==> (#[trigger] self.log()[k]).0 != id@,
            decreases self.prompt_call@.len() - i,
        {
            if same_text(self.prompt_call[i].id.as_str(), id) {
                return i;
            }
            i += 1;
        }
        i
    }

    /// Begins an attempt of the request in `prompt_config`: with the budget
    /// used up nothing happens and the request finishes; else the attempt is
    /// counted, recorded in the ledger, and its prompt handed out.
    fn begin_attempt(&mut self, prompt_config: &PromptConfig<'_>) -> (action: Action)
        requires
            old(self).counter() < u32::MAX,
        ensures
            action@ == attempt(prompt_config@),
            final(self).log() == ledger_after(
                old(self).log(),
                old(self).counter(),
                prompt_config@,
                action@,
            ),
            final(self).counter() == counter_after(old(self).counter(), action@),
            final(self).settings() == old(self).settings(),
            old(self).well_formed() ==> final(self).well_formed(),
    {
        if prompt_config.retries >= MAX_RETRIES {
            return Action::Finish;
        }
        self.prompt_counter = self.prompt_counter + 1;
        self.new_prompt_call(prompt_config.id.as_str(), prompt_config.track_count);
        Action::Generate(
            build_prompt(
                prompt_config.track_count,
                prompt_config.music_era,
                prompt_config.music_genre,
                prompt_config.prompt,
            ),
        )
    }

    /// Begins a request under the given id for the configured number of
    /// tracks, and its first attempt: the attempt is counted and recorded, and
    /// the action is its prompt.
    pub fn start<'b>(
        &mut self,
        id: String,
        expression: &'b str,
        music_genre: MusicGenre,
        music_era: MusicEra,
    ) -> (r: (PromptConfig<'b>, Action))
        requires
            old(self).counter() < u32::MAX,
        ensures
            r.0@ == (RetryState {
                id: id@,
                retries: 0,
                prompt: expression@,
                track_count: old(self).settings().track_count,
                music_genre,
                music_era,
            }),
            r.1@ == Step::Generate(
                prompt_text(old(self).settings().track_count, music_era, music_genre, expression@),
            ),
            final(self).log() == recorded(
                old(self).log(),
                id@,
                PromptCall {
                    count: (old(self).counter() + 1) as u32,
                    track_count: old(self).settings().track_count,
                },
            ),
            final(self).counter() == old(self).counter() + 1,
            final(self).settings() == old(self).settings(),
            old(self).well_formed() ==> final(self).well_formed(),
    {
        let prompt_config = PromptConfig {
            id,
            retries: 0,
            prompt: expression,
            track_count: self.config.track_count,
            music_genre,
            music_era,
        };
        let action = self.begin_attempt(&prompt_config);
        (prompt_config, action)
    }

    /// Begins a request for tracks that reflect `expression`, under a fresh
    /// random id, as `start` does under a given one.
    pub fn ask<'b>(
        &mut self,
        expression: &'b str,
        music_genre: MusicGenre,
        music_era: MusicEra,
    ) -> (r: (PromptConfig<'b>, Action))
        requires
            old(self).counter() < u32::MAX,
        ensures
            r.0@.id.len() == ID_LENGTH,
            forall|i: int| 0 <= i < r.0@.id.len() ==> is_ascii_alphanumeric(#[trigger] r.0@.id[i]),
            r.0@ == (RetryState {
                id: r.0@.id,
                retries: 0,
                prompt: expression@,
                track_count: old(self).settings().track_count,
                music_genre,
                music_era,
            }),
            r.1@ == Step::Generate(
                prompt_text(old(self).settings().track_count, music_era, music_genre, expression@),
            ),
            final(self).log() == recorded(
                old(self).log(),
                r.0@.id,
                PromptCall {
                    count: (old(self).counter() + 1) as u32,
                    track_count: old(self).settings().track_count,
                },
            ),
            final(self).counter() == old(self).counter() + 1,
            final(self).settings() == old(self).settings(),
            old(self).well_formed() ==> final(self).well_formed(),
    {
        self.start(generate_rand_id(), expression, music_genre, music_era)
    }

    /// Takes in what came of the last action and decides what is next.
    ///
    /// The retry state, the buffer and the action are those of `transition`.
    /// The ledger gains a record exactly when a new attempt begins, and never
    /// bears on the decision. The number of tracks still wanted never grows.
    pub fn send_prompt(
        &mut self,
        prompt_config: &mut PromptConfig<'_>,
        results_buffer: &mut Vec<Song>,
        event: Event,
    ) -> (action: Action)
        requires
            old(self).counter() < u32::MAX,
        ensures
            final(prompt_config)@ == transition(
                old(prompt_config)@,
                old(results_buffer)@,
                event,
            ).state,
            final(results_buffer)@ == transition(
                old(prompt_config)@,
                old(results_buffer)@,
                event,
            ).buffer,
            action@ == transition(old(prompt_config)@, old(results_buffer)@, event).step,
            final(prompt_config)@.track_count <= old(prompt_config)@.track_count,
            final(prompt_config)@.retries >= old(prompt_config)@.retries,
            final(self).log() == ledger_after(
                old(self).log(),
                old(self).counter(),
                final(prompt_config)@,
                action@,
            ),
            final(self).counter() == counter_after(old(self).counter(), action@),
            final(self).settings() == old(self).settings(),
            old(self).well_formed() ==> final(self).well_formed(),
    {
        if prompt_config.retries >= MAX_RETRIES {
            return Action::Finish;
        }
        match event {
            Event::GenerationFailed(message) => Action::Abort(AppError::GenerationFailed(message)),
            Event::ParseFailed(message) => Action::Abort(AppError::ParseFailed(message)),
            Event::Descriptors(descriptors) => Action::Search(descriptors),
            Event::SearchFailed(message) => Action::Abort(AppError::SearchFailed(message)),
            Event::Tracks(found) => {
                let mut found = found;
                let appended = found.len();
                results_buffer.append(&mut found);
                let duplicates = remove_duplicates(results_buffer);
                let added = if appended >= duplicates {
                    appended - duplicates
                } else {
                    0
                };
                let wanted = prompt_config.track_count;
                if added == wanted as usize {
                    return Action::Finish;
                }
                prompt_config.track_count = if added >= wanted as usize {
                    0
                } else {
                    wanted - added as u16
                };
                prompt_config.retries = prompt_config.retries + 1;
                self.begin_attempt(prompt_config)
            },
        }
    }

    /// A copy of the ledger: each request id with its attempts, oldest first.
    /// It reads the engine and changes nothing, so asking again gives the same.
    pub fn summarize(&self) -> (r: Vec<(String, Vec<PromptCall>)>)
        ensures
            ledger_of(r@) == self.log(),
    {
        let mut r: Vec<(String, Vec<PromptCall>)> = Vec::new();
        let mut i: usize = 0;
        while i < self.prompt_call.len()
            invariant
                i <= self.prompt_call@.len(),
                r@.len() == i,
                ledger_of(r@) == self.log().take(i as int),
            decreases self.prompt_call@.len() - i,
        {
            let entry = &self.prompt_call[i];
            let mut calls: Vec<PromptCall> = Vec::new();
            let mut k: usize = 0;
            while k < entry.calls.len()
                invariant
                    k <= entry.calls@.len(),
                    calls@ == entry.calls@.take(k as int),
                decreases entry.calls@.len() - k,
            {
                calls.push(entry.calls[k]);
                proof {
                    assert(calls@ =~= entry.calls@.take(k + 1));
                }
                k += 1;
            }
            proof {
                assert(calls@ =~= entry.calls@);
            }
            let ghost copied = r@;
            let id = entry.id.clone();
            r.push((id, calls));
            proof {
                assert(r@.len() == i + 1);
                assert forall|j: int| 0 <= j < i + 1 implies ledger_of(r@)[j] == self.log().take(
                    i + 1,
                )[j] by {
                    if j < i {
                        assert(r@[j] == copied[j]);
                        assert(ledger_of(copied)[j] == self.log().take(i as int)[j]);
                    } else {
                        assert(r@[j] == (id, calls));
                        assert(self.log()[j] == (entry.id@, entry.calls@));
                    }
                }
                assert(ledger_of(r@) =~= self.log().take(i + 1));
            }
            i += 1;
        }
        proof {
            assert(self.log().take(i as int) =~= self.log());
        }
        r
    }

    /// The summary of the ledger for display, line by line: for each request
    /// its id, then one line for each of its attempts.
    pub fn generate_prompt_summary(&self) -> (lines: Vec<String>)
        ensures
            texts(lines@) == summary_lines(self.log()),
    {
        let mut lines: Vec<String> = Vec::new();
        let mut i: usize = 0;
        proof {
            assert(texts(lines@) =~= summary_lines(self.log().take(0)));
        }
        while i < self.prompt_call.len()
            invariant
                i <= self.prompt_call@.len(),
                texts(lines@) == summary_lines(self.log().take(i as int)),
            decreases self.prompt_call@.len() - i,
        {
            let entry = &self.prompt_call[i];
            let ghost done = summary_lines(self.log().take(i as int));
            let mut head = String::from_str("\nID: ");
            head.append(entry.id.as_str());
            lines.push(head);
            let mut k: usize = 0;
            proof {
                assert(texts(lines@) =~= done + entry_lines(entry.id@, entry.calls@.take(0)));
            }
            while k < entry.calls.len()
                invariant
                    k <= entry.calls@.len(),
                    texts(lines@) == done + entry_lines(entry.id@, entry.calls@.take(k as int)),
                decreases entry.calls@.len() - k,
            {
                let call = entry.calls[k];
                let mut line = String::from_str("iteration number ");
                let count = to_decimal(call.count as u64);
                line.append(count.as_str());
                line.append(" for ");
                let wanted = to_decimal(call.track_count as u64);
                line.append(wanted.as_str());
                line.append(" tracks");
                let ghost written = lines@;
                lines.push(line);
                proof {
                    assert(line@ == call_line(call));
                    assert(texts(lines@) =~= texts(written).push(line@));
                    assert(entry.calls@.take(k + 1) =~= entry.calls@.take(k as int).push(call));
                    assert(entry_lines(entry.id@, entry.calls@.take(k + 1)) =~= entry_lines(
                        entry.id@,
                        entry.calls@.take(k as int),
                    ).push(call_line(call)));
                    assert(texts(lines@) =~= done + entry_lines(
                        entry.id@,
                        entry.calls@.take(k + 1),
                    ));
                }
                k += 1;
            }
            proof {
                assert(entry.calls@.take(k as int) =~= entry.calls@);
                let upto = self.log().take(i + 1);
                assert(upto.drop_last() =~= self.log().take(i as int));
                assert(upto.last() == (entry.id@, entry.calls@));
            }
            i += 1;
        }
        proof {
            assert(self.log().take(i as int) =~= self.log());
        }
        lines
    }

    /// Records in the ledger that an attempt under `id` asks for `track_count`
    /// tracks, numbered by the current count of attempts.
    fn new_prompt_call(&mut self, id: &str, track_count: u16)
        ensures
            final(self).log() == recorded(
                old(self).log(),
                id@,
                PromptCall { count: old(self).counter(), track_count },
            ),
            old(self).well_formed() ==> final(self).well_formed(),
            final(self).counter() == old(self).counter(),
            final(self).settings() == old(self).settings(),
    {
        let call = PromptCall { count: self.prompt_counter, track_count };
        let i = self.find_entry(id);
        let ghost before = self.log();
        if i < self.prompt_call.len() {
            proof {
                let c = choose|c: int| is_first_with_id(before, id@, c);
                assert(before[i as int].0 == id@);
                assert(has_id(before, id@));
                assert(c == i);
            }
            self.prompt_call[i].calls.push(call);
            proof {
                assert(self.log() =~= before.update(i as int, (id@, before[i as int].1.push(call))));
            }
        } else {
            let mut calls: Vec<PromptCall> = Vec::new();
            calls.push(call);
            let entry = LedgerEntry { id: id.to_owned(), calls };
            self.prompt_call.push(entry);
            proof {
                assert(calls@ =~= seq![call]);
                assert(self.log() =~= before.push((id@, seq![call])));
            }
        }
    }
}

/// The retry state and the buffer after a run of events, each taken in by
/// `transition` in turn.
pub open spec fn state_after(state: RetryState, buffer: Seq<Song>, events: Seq<Event>) -> (
    RetryState,
    Seq<Song>,
)
    decreases events.len(),
{
    if events.len() == 0 {
        (state, buffer)
    } else {
        let t = transition(state, buffer, events.first());
        state_after(t.state, t.buffer, events.drop_first())
    }
}

/// How often a run of events makes the engine ask for a generation call.
pub open spec fn generations(state: RetryState, buffer: Seq<Song>, events: Seq<Event>) -> nat
    decreases events.len(),
{
    if events.len() == 0 {
        0
    } else {
        let t = transition(state, buffer, events.first());
        let asked: nat = if t.step is Generate {
            1
        } else {
            0
        };
        asked + generations(t.state, t.buffer, events.drop_first())
    }
}

/// A request ends within its budget: whatever is reported to the engine, in
/// whatever order and however many duplicates the catalog returns, the
/// generation calls that a request causes after its first, together with the
/// retries already counted, stay below `MAX_RETRIES`. Counting the call that
/// `start` asks for, a request causes at most `MAX_RETRIES` generation calls,
/// and so no more than `MAX_RETRIES + 1`.
pub proof fn lemma_retry_budget(state: RetryState, buffer: Seq<Song>, events: Seq<Event>)
    ensures
        state.retries >= MAX_RETRIES ==> generations(state, buffer, events) == 0,
        state.retries < MAX_RETRIES ==> 1 + state.retries + generations(state, buffer, events)
            <= MAX_RETRIES,
        state.retries == 0 ==> 1 + generations(state, buffer, events) <= MAX_RETRIES + 1,
    decreases events.len(),
{
    if events.len() > 0 {
        let t = transition(state, buffer, events.first());
        lemma_retry_budget(t.state, t.buffer, events.drop_first());
    }
}

/// Within one request the number of tracks still wanted never grows, and the
/// count of retries never falls, whatever is reported to the engine.
pub proof fn lemma_quota_monotone(state: RetryState, buffer: Seq<Song>, events: Seq<Event>)
    ensures
        0 <= state_after(state, buffer, events).0.track_count <= state.track_count,
        state_after(state, buffer, events).0.retries >= state.retries,
        state.retries <= MAX_RETRIES ==> state_after(state, buffer, events).0.retries
            <= MAX_RETRIES,
    decreases events.len(),
{
    if events.len() > 0 {
        let t = transition(state, buffer, events.first());
        lemma_quota_monotone(t.state, t.buffer, events.drop_first());
    }
}

/// What a request returns holds no track twice: a buffer that is free of
/// duplicates, as the empty buffer of a new request is, stays so through any
/// run of events, and keeps in front, in order, what it held before.
pub proof fn lemma_result_unique(state: RetryState, buffer: Seq<Song>, events: Seq<Event>)
    requires
        distinct(buffer),
    ensures
        distinct(state_after(state, buffer, events).1),
        buffer.len() <= state_after(state, buffer, events).1.len(),
        state_after(state, buffer, events).1.take(buffer.len() as int) == buffer,
    decreases events.len(),
{
    if events.len() == 0 {
        assert(buffer.take(buffer.len() as int) =~= buffer);
    } else {
        let t = transition(state, buffer, events.first());
        lemma_buffer_grows(state, buffer, events.first());
        lemma_result_unique(t.state, t.buffer, events.drop_first());
        let last = state_after(state, buffer, events).1;
        assert(last.take(buffer.len() as int) =~= last.take(t.buffer.len() as int).take(
            buffer.len() as int,
        ));
    }
}

/// A buffer that is free of duplicates stays so, and keeps what it holds, in
/// front and in order. An attempt then adds what the buffer grows by: no more
/// than the catalog found, and never a negative number that would have to be
/// raised to zero.
pub proof fn lemma_buffer_grows(state: RetryState, buffer: Seq<Song>, event: Event)
    requires
        distinct(buffer),
    ensures
        distinct(transition(state, buffer, event).buffer),
        buffer.len() <= transition(state, buffer, event).buffer.len(),
        transition(state, buffer, event).buffer.take(buffer.len() as int) == buffer,
        event matches Event::Tracks(found) ==> net_added(buffer, found@) == dedupe(
            buffer + found@,
        ).len() - buffer.len() && net_added(buffer, found@) <= found@.len(),
{
    lemma_dedupe_of_distinct(buffer);
    assert(buffer.take(buffer.len() as int) =~= buffer);
    match event {
        Event::Tracks(found) => {
            lemma_dedupe_extends(buffer, found@);
            lemma_dedupe_distinct(buffer + found@);
            lemma_dedupe_identities(buffer + found@);
        },
        _ => {},
    }
}

} // verus!
