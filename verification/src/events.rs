//! The build-event stream and the artifact resolver.
//!
//! The toolchain writes one structured event per line on its standard
//! output.  The resolver consumes those events in arrival order, keeps only
//! the most recent compiler-artifact event (last writer wins), hands
//! diagnostic renderings back to the caller for forwarding, and, once the
//! stream has ended and the subprocess has been waited on, turns the exit
//! status and the buffered artifact into the final result: the artifact's
//! first output path on success, a classified failure otherwise.

use vstd::prelude::*;
use vstd::string::StringExecFns;

use crate::error::Error;

verus! {

/// One event of the build-event stream, reduced to what the pipeline
/// reads: a diagnostic's human-readable rendering, an artifact's output
/// file paths, or nothing.
pub enum BuildEvent {
    CompilerDiagnostic(String),
    CompilerArtifact(Vec<String>),
    Other,
}

/// The output paths an event carries: `Some` exactly for a compiler
/// artifact.
pub open spec fn artifact_paths(event: BuildEvent) -> Option<Seq<Seq<char>>> {
    match event {
        BuildEvent::CompilerArtifact(paths) => Some(paths.deep_view()),
        _ => None,
    }
}

/// The transition rule of the resolver: a compiler artifact replaces the
/// buffered record unconditionally, every other event leaves it unchanged.
pub open spec fn observe_model(
    state: Option<Seq<Seq<char>>>,
    event: BuildEvent,
) -> Option<Seq<Seq<char>>> {
    match artifact_paths(event) {
        Some(paths) => Some(paths),
        None => state,
    }
}

/// The buffered record after a whole stream of events has been observed
/// in order, starting from the empty buffer.
pub open spec fn fold_events(events: Seq<BuildEvent>) -> Option<Seq<Seq<char>>>
    decreases events.len(),
{
    if events.len() == 0 {
        None
    } else {
        observe_model(fold_events(events.drop_last()), events.last())
    }
}

/// What a finished build resolves to, given the buffered artifact record
/// and the subprocess's exit status.  A failing exit is a build failure no
/// matter what was buffered; a successful exit without a usable artifact
/// record means no artifact was produced; otherwise the record's first
/// path is the result.
pub open spec fn state_resolution(
    state: Option<Seq<Seq<char>>>,
    exit_success: bool,
) -> Result<Seq<char>, Error> {
    if !exit_success {
        Err(Error::ToolchainBuildFailed)
    } else {
        match state {
            None => Err(Error::NoArtifactProduced),
            Some(paths) => if paths.len() == 0 {
                Err(Error::NoArtifactProduced)
            } else {
                Ok(paths[0])
            },
        }
    }
}

/// What a whole event stream resolves to under a given exit status.
pub open spec fn resolution_model(
    events: Seq<BuildEvent>,
    exit_success: bool,
) -> Result<Seq<char>, Error> {
    state_resolution(fold_events(events), exit_success)
}

/// The view of an executable resolution result.
pub open spec fn result_view(r: Result<String, Error>) -> Result<Seq<char>, Error> {
    match r {
        Ok(path) => Ok(path@),
        Err(e) => Err(e),
    }
}

/// The event a line of the stream decodes to: `None` when the line looks
/// structured but cannot be decoded.  The result depends on the line
/// alone.
pub uninterp spec fn event_of(line: Seq<char>) -> Option<BuildEvent>;

/// Relies on `serde_json::from_str` deserializing one line of the stream
/// as a `cargo_metadata::Message`; the two kinds the pipeline reads are
/// kept (a diagnostic as its human-readable rendering, an artifact as its
/// output file paths) and every other message kind becomes `Other`.
#[verifier::external_body]
fn parse_event_line(line: &str) -> (r: Option<BuildEvent>)
    ensures
        r == event_of(line@),
{
    let message: cargo_metadata::Message = match serde_json::from_str(line) {
        Ok(m) => m,
        Err(_) => return None,
    };
    Some(match message {
        cargo_metadata::Message::CompilerMessage(m) => {
            BuildEvent::CompilerDiagnostic(format!("{}", m))
        },
        cargo_metadata::Message::CompilerArtifact(a) => {
            BuildEvent::CompilerArtifact(a.filenames.into_iter().map(|f| f.into_string()).collect())
        },
        _ => BuildEvent::Other,
    })
}

/// The resolver's single piece of state: the most recent compiler-artifact
/// record, if any.
pub struct ArtifactResolver {
    last_artifact: Option<Vec<String>>,
}

impl View for ArtifactResolver {
    type V = Option<Seq<Seq<char>>>;

    closed spec fn view(&self) -> Option<Seq<Seq<char>>> {
        match self.last_artifact {
            None => None,
            Some(paths) => Some(paths.deep_view()),
        }
    }
}

impl ArtifactResolver {
    /// A fresh resolver with an empty artifact buffer.
    pub fn new() -> (r: ArtifactResolver)
        ensures
            r@ is None,
    {
        ArtifactResolver { last_artifact: None }
    }

    /// Applies the transition rule to one event and returns the diagnostic
    /// text to forward to the error stream, if the event carries one.
    pub fn observe(&mut self, event: BuildEvent) -> (diagnostic: Option<String>)
        ensures
            final(self)@ == observe_model(old(self)@, event),
            match event {
                BuildEvent::CompilerDiagnostic(msg) => diagnostic matches Some(d) && d@ == msg@,
                _ => diagnostic is None,
            },
    {
        match event {
            BuildEvent::CompilerDiagnostic(msg) => Some(msg),
            BuildEvent::CompilerArtifact(paths) => {
                self.last_artifact = Some(paths);
                None
            },
            BuildEvent::Other => None,
        }
    }

    /// Decodes one line of the stream and applies it.  A line that does
    /// not look structured (it does not start with `{`) is not an event
    /// and is ignored; a structured line that cannot be decoded is a
    /// fatal decode failure and leaves the resolver unchanged.
    pub fn feed_line(&mut self, line: &str) -> (r: Result<Option<String>, Error>)
        ensures
            line@.len() == 0 || line@[0] != '{' ==> final(self)@ == old(self)@ && (r matches Ok(d)
                && d is None),
            line@.len() > 0 && line@[0] == '{' ==> match event_of(line@) {
                Some(event) => {
                    &&& final(self)@ == observe_model(old(self)@, event)
                    &&& r matches Ok(d)
                    &&& match event {
                        BuildEvent::CompilerDiagnostic(msg) => d matches Some(t) && t@ == msg@,
                        _ => d is None,
                    }
                },
                None => final(self)@ == old(self)@ && (r matches Err(e) && e matches
                    Error::StreamDecode(_)),
            },
    {
        if line.is_empty() {
            return Ok(None);
        }
        if line.get_char(0) != '{' {
            return Ok(None);
        }
        match parse_event_line(line) {
            Some(event) => Ok(self.observe(event)),
            None => Err(Error::StreamDecode(String::from_str(line))),
        }
    }

    /// Turns the buffered record and the exit status into the final
    /// resolution, consuming the resolver.
    pub fn resolve(self, exit_success: bool) -> (r: Result<String, Error>)
        ensures
            result_view(r) == state_resolution(self@, exit_success),
    {
        if !exit_success {
            return Err(Error::ToolchainBuildFailed);
        }
        match self.last_artifact {
            None => Err(Error::NoArtifactProduced),
            Some(paths) => {
                if paths.len() == 0 {
                    Err(Error::NoArtifactProduced)
                } else {
                    let first = paths[0].clone();
                    proof {
                        assert(paths.deep_view()[0] == paths@[0]@);
                    }
                    Ok(first)
                }
            },
        }
    }
}

/// Resolves a complete, already-decoded event stream under the given exit
/// status, observing the events in order.
pub fn resolve_events(events: Vec<BuildEvent>, exit_success: bool) -> (r: Result<String, Error>)
    ensures
        result_view(r) == resolution_model(events@, exit_success),
{
    let ghost model = events@;
    let mut events = events;
    let mut resolver = ArtifactResolver::new();
    let ghost mut i: int = 0;
    proof {
        assert(model.take(0) =~= Seq::<BuildEvent>::empty());
    }
    while events.len() > 0
        invariant
            0 <= i,
            i + events@.len() == model.len(),
            events@ =~= model.skip(i),
            resolver@ == fold_events(model.take(i)),
        decreases events.len(),
    {
        let ghost pre = events@;
        let event = events.remove(0);
        proof {
            assert(model.take(i + 1).drop_last() =~= model.take(i));
            assert(model.take(i + 1).last() == model[i]);
            assert(pre.remove(0) =~= model.skip(i + 1));
        }
        let _ = resolver.observe(event);
        proof {
            i = i + 1;
        }
    }
    proof {
        assert(model.take(i) =~= model);
    }
    resolver.resolve(exit_success)
}

/// A stream that ends in a failing exit status always resolves to the
/// build-failed error, no matter how many artifacts were reported before.
pub proof fn lemma_failed_exit_is_failure(events: Seq<BuildEvent>)
    ensures
        resolution_model(events, false) == Err::<Seq<char>, Error>(Error::ToolchainBuildFailed),
{
}

/// Last artifact wins: when the event at `i` is the stream's last
/// compiler artifact and carries at least one path, a successful exit
/// resolves to that artifact's first path.
pub proof fn lemma_last_artifact_wins(events: Seq<BuildEvent>, i: int, paths: Seq<Seq<char>>)
    requires
        0 <= i < events.len(),
        artifact_paths(events[i]) == Some(paths),
        paths.len() > 0,
        forall|j: int| i < j < events.len() ==> artifact_paths(#[trigger] events[j]) is None,
    ensures
        resolution_model(events, true) == Ok::<Seq<char>, Error>(paths[0]),
    decreases events.len(),
{
    if i == events.len() - 1 {
        assert(fold_events(events) == Some(paths));
    } else {
        assert(artifact_paths(events.last()) is None);
        assert(events.drop_last()[i] == events[i]);
        lemma_last_artifact_wins(events.drop_last(), i, paths);
        assert(fold_events(events) == fold_events(events.drop_last()));
    }
}

/// A successful exit over a stream without a single compiler artifact
/// resolves to the missing-artifact failure.
pub proof fn lemma_no_artifact_is_failure(events: Seq<BuildEvent>)
    requires
        forall|j: int| 0 <= j < events.len() ==> artifact_paths(#[trigger] events[j]) is None,
    ensures
        resolution_model(events, true) == Err::<Seq<char>, Error>(Error::NoArtifactProduced),
    decreases events.len(),
{
    if events.len() > 0 {
        lemma_no_artifact_is_failure(events.drop_last());
    }
}

} // verus!
