//! One cycle of the clipboard watch: what to do with what was just read.

use crate::translate::{translate_command, translation};
use vstd::prelude::*;

verus! {

/// What a rewrite tells its listeners: the text that was found and the
/// text that was put in its place.
#[derive(Clone, Debug)]
pub struct TranslationEvent {
    pub original: String,
    pub translated: String,
}

/// The texts of an optional event, the original first.
pub open spec fn event_texts(event: Option<TranslationEvent>) -> Option<(Seq<char>, Seq<char>)> {
    match event {
        Some(e) => Some((e.original@, e.translated@)),
        None => None,
    }
}

/// The text of what was read, where the read succeeded.
pub open spec fn content_text(content: Option<String>) -> Option<Seq<char>> {
    match content {
        Some(s) => Some(s@),
        None => None,
    }
}

/// Whether a cycle tries a translation: only while the watch is on, and
/// only on text that was read, is not empty and differs from what the
/// cycle before it saw.
pub open spec fn attempts_rewrite(last: Seq<char>, monitoring: bool, content: Option<Seq<char>>) -> bool {
    &&& monitoring
    &&& content is Some
    &&& content->0.len() > 0
    &&& content->0 != last
}

/// The rewrite that a cycle asks for: the text read and its translation.
pub open spec fn observed_rewrite(
    last: Seq<char>,
    monitoring: bool,
    content: Option<Seq<char>>,
    target: Seq<char>,
) -> Option<(Seq<char>, Seq<char>)> {
    if attempts_rewrite(last, monitoring, content) {
        match translation(content->0, target) {
            Some(t) => Some((content->0, t)),
            None => None,
        }
    } else {
        None
    }
}

/// What a cycle leaves as the text last seen: what it read, if the watch
/// is on and the read succeeded; else what was there before.
pub open spec fn observed_last(last: Seq<char>, monitoring: bool, content: Option<Seq<char>>) -> Seq<
    char,
> {
    if monitoring && content is Some {
        content->0
    } else {
        last
    }
}

/// The memory of the watch task: the text that the last cycle saw.
pub struct ClipboardMonitor {
    last_clipboard: String,
}

impl ClipboardMonitor {
    /// The text that the last cycle saw.
    pub closed spec fn last(self) -> Seq<char> {
        self.last_clipboard@
    }

    /// A watch task that has seen nothing yet.
    pub fn new() -> (m: Self)
        ensures
            m.last() == Seq::<char>::empty(),
    {
        ClipboardMonitor { last_clipboard: String::new() }
    }

    /// One cycle. `monitoring` is the watch flag, `content` what was read
    /// from the clipboard (`None` where the read failed) and `preferred_pm`
    /// the preferred package manager at this moment. Returns the rewrite to
    /// perform, if any: the caller writes `translated` to the clipboard and
    /// then passes the event to `after_write`.
    pub fn on_clipboard_change(
        &mut self,
        monitoring: bool,
        content: Option<String>,
        preferred_pm: &str,
    ) -> (event: Option<TranslationEvent>)
        ensures
            event_texts(event) == observed_rewrite(
                old(self).last(),
                monitoring,
                content_text(content),
                preferred_pm@,
            ),
            final(self).last() == observed_last(old(self).last(), monitoring, content_text(content)),
    {
        if !monitoring {
            return None;
        }
        match content {
            None => None,
            Some(current) => {
                let event = if current != self.last_clipboard && !current.as_str().is_empty() {
                    match translate_command(current.as_str(), preferred_pm) {
                        Some(translated) => Some(
                            TranslationEvent { original: current.clone(), translated },
                        ),
                        None => None,
                    }
                } else {
                    None
                };
                self.last_clipboard = current;
                event
            },
        }
    }
}

/// What becomes of a rewrite once the clipboard was written: the event goes
/// out if the write succeeded and is dropped if it failed.
pub fn after_write(event: TranslationEvent, written: bool) -> (emitted: Option<TranslationEvent>)
    ensures
        emitted == if written {
            Some(event)
        } else {
            None
        },
{
    if written {
        Some(event)
    } else {
        None
    }
}

/// A text that two cycles in a row read gives no rewrite in the second,
/// whatever the first one did and whichever package manager is preferred
/// by then.
pub proof fn lemma_repeated_text_is_silent(
    last: Seq<char>,
    text: Seq<char>,
    target: Seq<char>,
)
    ensures
        observed_rewrite(observed_last(last, true, Some(text)), true, Some(text), target) is None,
{
}

/// While the watch is off, a cycle neither rewrites nor remembers.
pub proof fn lemma_stopped_watch_is_silent(
    last: Seq<char>,
    content: Option<Seq<char>>,
    target: Seq<char>,
)
    ensures
        observed_rewrite(last, false, content, target) is None,
        observed_last(last, false, content) == last,
{
}

/// An empty clipboard gives no rewrite.
pub proof fn lemma_empty_text_is_silent(last: Seq<char>, monitoring: bool, target: Seq<char>)
    ensures
        observed_rewrite(last, monitoring, Some(Seq::<char>::empty()), target) is None,
{
}

} // verus!
