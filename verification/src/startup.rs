use vstd::prelude::*;

use crate::models::opt_str;
use crate::text::{str_eq, str_starts_with, starts_with, views, concat2};

verus! {

// ---------------------------------------------------------------------
// Starting the local model server
// ---------------------------------------------------------------------

/// How many one-second waits follow the start of the model server.
pub const MAX_WAITS: u32 = 15;

/// Where bringing up the model server stands.
pub enum Startup {
    /// Asking whether the server already answers.
    Probing,
    /// Asking whether the server program is installed.
    CheckingInstall,
    /// Starting the server.
    Spawning,
    /// Waiting for the started server; the number of waits so far.
    Waiting(u32),
    /// Finished: whether the server answers.
    Done(bool),
}

/// What was observed after the last action.
pub enum StartupEvent {
    /// Whether the server answered.
    Answered(bool),
    /// Whether the program is installed.
    Installed(bool),
    /// Whether the server process started.
    Spawned(bool),
}

/// What to do next.
pub enum StartupAction {
    /// Ask whether the server answers (right away).
    Probe,
    /// Ask whether the program is installed.
    CheckInstall,
    /// Start the server process.
    Spawn,
    /// Wait one second, then ask whether the server answers.
    WaitAndProbe,
    /// Stop with this answer.
    Finish(bool),
}

/// The first state and action.
pub fn startup_begin() -> (r: (Startup, StartupAction))
    ensures
        r.0 == Startup::Probing,
        r.1 == StartupAction::Probe,
{
    (Startup::Probing, StartupAction::Probe)
}

/// The next state and action: a server that answers ends with `true`; one
/// that does not is started if installed, then probed after each of at most
/// `MAX_WAITS` one-second waits; a missing program, a failed start or the
/// last failed probe ends with `false`.  An event that does not fit the state
/// leaves it unchanged and asks for its action again.
pub open spec fn startup_next(s: Startup, e: StartupEvent) -> (Startup, StartupAction) {
    match (s, e) {
        (Startup::Probing, StartupEvent::Answered(true)) => (Startup::Done(true), StartupAction::Finish(true)),
        (Startup::Probing, StartupEvent::Answered(false)) => (Startup::CheckingInstall, StartupAction::CheckInstall),
        (Startup::CheckingInstall, StartupEvent::Installed(false)) => (Startup::Done(false), StartupAction::Finish(false)),
        (Startup::CheckingInstall, StartupEvent::Installed(true)) => (Startup::Spawning, StartupAction::Spawn),
        (Startup::Spawning, StartupEvent::Spawned(false)) => (Startup::Done(false), StartupAction::Finish(false)),
        (Startup::Spawning, StartupEvent::Spawned(true)) => (Startup::Waiting(1), StartupAction::WaitAndProbe),
        (Startup::Waiting(n), StartupEvent::Answered(true)) => (Startup::Done(true), StartupAction::Finish(true)),
        (Startup::Waiting(n), StartupEvent::Answered(false)) => if n < MAX_WAITS {
            (Startup::Waiting((n + 1) as u32), StartupAction::WaitAndProbe)
        } else {
            (Startup::Done(false), StartupAction::Finish(false))
        },
        (Startup::Done(b), _) => (Startup::Done(b), StartupAction::Finish(b)),
        (Startup::Probing, _) => (Startup::Probing, StartupAction::Probe),
        (Startup::CheckingInstall, _) => (Startup::CheckingInstall, StartupAction::CheckInstall),
        (Startup::Spawning, _) => (Startup::Spawning, StartupAction::Spawn),
        (Startup::Waiting(n), _) => (Startup::Waiting(n), StartupAction::WaitAndProbe),
    }
}

/// Waiting states never exceed the number of waits.
pub open spec fn startup_valid(s: Startup) -> bool {
    match s {
        Startup::Waiting(n) => 1 <= n <= MAX_WAITS,
        _ => true,
    }
}

/// Advances the start-up of the model server; see `startup_next`.
pub fn startup_step(s: Startup, e: StartupEvent) -> (r: (Startup, StartupAction))
    ensures
        r == startup_next(s, e),
        startup_valid(s) ==> startup_valid(r.0),
{
    match (s, e) {
        (Startup::Probing, StartupEvent::Answered(true)) => (Startup::Done(true), StartupAction::Finish(true)),
        (Startup::Probing, StartupEvent::Answered(false)) => (Startup::CheckingInstall, StartupAction::CheckInstall),
        (Startup::CheckingInstall, StartupEvent::Installed(false)) => (Startup::Done(false), StartupAction::Finish(false)),
        (Startup::CheckingInstall, StartupEvent::Installed(true)) => (Startup::Spawning, StartupAction::Spawn),
        (Startup::Spawning, StartupEvent::Spawned(false)) => (Startup::Done(false), StartupAction::Finish(false)),
        (Startup::Spawning, StartupEvent::Spawned(true)) => (Startup::Waiting(1), StartupAction::WaitAndProbe),
        (Startup::Waiting(n), StartupEvent::Answered(true)) => (Startup::Done(true), StartupAction::Finish(true)),
        (Startup::Waiting(n), StartupEvent::Answered(false)) => if n < MAX_WAITS {
            (Startup::Waiting(n + 1), StartupAction::WaitAndProbe)
        } else {
            (Startup::Done(false), StartupAction::Finish(false))
        },
        (Startup::Done(b), _) => (Startup::Done(b), StartupAction::Finish(b)),
        (Startup::Probing, _) => (Startup::Probing, StartupAction::Probe),
        (Startup::CheckingInstall, _) => (Startup::CheckingInstall, StartupAction::CheckInstall),
        (Startup::Spawning, _) => (Startup::Spawning, StartupAction::Spawn),
        (Startup::Waiting(n), _) => (Startup::Waiting(n), StartupAction::WaitAndProbe),
    }
}

/// The event answers the action the state asked for.
pub open spec fn startup_fits(s: Startup, e: StartupEvent) -> bool {
    match (s, e) {
        (Startup::Probing, StartupEvent::Answered(_)) => true,
        (Startup::CheckingInstall, StartupEvent::Installed(_)) => true,
        (Startup::Spawning, StartupEvent::Spawned(_)) => true,
        (Startup::Waiting(_), StartupEvent::Answered(_)) => true,
        _ => false,
    }
}

/// How many more answered actions the start-up can take at most.
pub open spec fn startup_rank(s: Startup) -> nat {
    match s {
        Startup::Done(_) => 0,
        Startup::Waiting(n) => (MAX_WAITS - n + 1) as nat,
        Startup::Spawning => (MAX_WAITS + 1) as nat,
        Startup::CheckingInstall => (MAX_WAITS + 2) as nat,
        Startup::Probing => (MAX_WAITS + 3) as nat,
    }
}

/// The start-up ends: every answered action brings it closer to its end, an
/// event that does not answer the action changes nothing, and once done it
/// stays done with the same answer.
pub proof fn lemma_startup_ends(s: Startup, e: StartupEvent)
    requires
        startup_valid(s),
    ensures
        startup_fits(s, e) && !(s is Done) ==> startup_rank(startup_next(s, e).0) < startup_rank(s),
        !startup_fits(s, e) ==> startup_next(s, e).0 == s,
        s matches Startup::Done(b) ==> startup_next(s, e) == (s, StartupAction::Finish(b)),
        startup_rank(s) <= MAX_WAITS + 3,
{
}

/// The start-up ends with `true` only when the server answered.
pub proof fn lemma_startup_success(s: Startup, e: StartupEvent)
    ensures
        startup_next(s, e).1 == StartupAction::Finish(true) ==> e == StartupEvent::Answered(true)
            || s == Startup::Done(true),
        startup_next(s, e).0 == Startup::Done(true) ==> e == StartupEvent::Answered(true)
            || s == Startup::Done(true),
{
}

// ---------------------------------------------------------------------
// The model server's catalogue and replies
// ---------------------------------------------------------------------

/// The model is listed under its name or its `:latest` tag.
pub open spec fn model_listed_in(names: Seq<Seq<char>>, model: Seq<char>) -> bool {
    exists|i: int|
        0 <= i < names.len() && (#[trigger] names[i] == model || names[i] == model + ":latest"@)
}

/// Whether the model server lists the model.
pub fn model_listed(names: &Vec<String>, model: &str) -> (r: bool)
    ensures
        r == model_listed_in(views(names@), model@),
{
    let tagged = concat2(model, ":latest");
    let mut i: usize = 0;
    while i < names.len()
        invariant
            i <= names.len(),
            tagged@ == model@ + ":latest"@,
            forall|j: int| 0 <= j < i ==> names@[j]@ != model@ && names@[j]@ != model@ + ":latest"@,
        decreases names.len() - i,
    {
        if str_eq(names[i].as_str(), model) || str_eq(names[i].as_str(), tagged.as_str()) {
            assert(views(names@)[i as int] == names@[i as int]@);
            return true;
        }
        i = i + 1;
    }
    assert forall|j: int| 0 <= j < views(names@).len() implies !(#[trigger] views(names@)[j] == model@
        || views(names@)[j] == model@ + ":latest"@) by {
        assert(views(names@)[j] == names@[j]@);
    }
    false
}

/// The text of a chat reply, or a notice when the server sent no message.
pub fn reply_or_notice(content: Option<String>) -> (r: String)
    ensures
        r@ == match content {
            Some(c) => c@,
            None => "Không nhận được phản hồi từ Ollama."@,
        },
{
    match content {
        Some(c) => c,
        None => String::from_str("Không nhận được phản hồi từ Ollama."),
    }
}

// ---------------------------------------------------------------------
// Finding the public tunnel
// ---------------------------------------------------------------------

/// The first public URL that uses HTTPS.
pub open spec fn first_https(urls: Seq<Option<Seq<char>>>) -> Option<Seq<char>>
    decreases urls.len(),
{
    if urls.len() == 0 {
        None
    } else {
        match urls[0] {
            Some(u) => if starts_with(u, "https://"@) {
                Some(u)
            } else {
                first_https(urls.drop_first())
            },
            None => first_https(urls.drop_first()),
        }
    }
}

/// Picks the tunnel to call back through: the first public URL that uses HTTPS.
pub fn first_https_url(urls: &Vec<Option<String>>) -> (r: Option<String>)
    ensures
        opt_str(r) == first_https(urls@.map_values(|u: Option<String>| opt_str(u))),
{
    let ghost us = urls@.map_values(|u: Option<String>| opt_str(u));
    let mut i: usize = 0;
    assert(us.skip(0) =~= us);
    while i < urls.len()
        invariant
            i <= urls.len(),
            us == urls@.map_values(|u: Option<String>| opt_str(u)),
            first_https(us) == first_https(us.skip(i as int)),
        decreases urls.len() - i,
    {
        assert(us.skip(i as int)[0] == opt_str(urls@[i as int]));
        assert(us.skip(i as int).drop_first() =~= us.skip(i + 1));
        if let Some(u) = &urls[i] {
            if str_starts_with(u.as_str(), "https://") {
                return Some(u.clone());
            }
        }
        i = i + 1;
    }
    None
}

} // verus!
