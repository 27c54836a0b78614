//! A message that is revealed one character at a time.

use vstd::prelude::*;

verus! {

/// The time that must have passed since the last step before the next
/// character is shown, in nanoseconds.
pub const FRAME_INTERVAL_NANOS: u64 = 20_000_000;

/// A text on its way to being fully shown. Times are nanoseconds on a
/// monotonic clock of the caller's.
pub struct AnimatedMessage {
    full_text: String,
    visible_text: String,
    index: usize,
    last_update: u64,
    finished: bool,
}

/// The mathematical model of an [`AnimatedMessage`].
pub struct Animation {
    pub full_text: Seq<char>,
    pub visible_text: Seq<char>,
    pub index: nat,
    pub last_update: nat,
    pub finished: bool,
}

/// The time from `earlier` to `now`, zero where `now` is the earlier one.
pub open spec fn elapsed(earlier: nat, now: nat) -> nat {
    if now >= earlier {
        (now - earlier) as nat
    } else {
        0
    }
}

impl Animation {
    /// The state of a message of which nothing is shown yet.
    pub open spec fn start(full_text: Seq<char>, now: nat) -> Animation {
        Animation {
            full_text,
            visible_text: Seq::empty(),
            index: 0,
            last_update: now,
            finished: false,
        }
    }

    /// A step is due at `now`.
    pub open spec fn due(self, now: nat) -> bool {
        !self.finished && elapsed(self.last_update, now) > FRAME_INTERVAL_NANOS
    }

    /// The state after the update at `now`: unchanged unless a step is due;
    /// else one character more is shown, and the message is finished once
    /// the count of characters reaches the length of the text.
    pub open spec fn updated(self, now: nat) -> Animation {
        if !self.due(now) {
            self
        } else if self.index + 1 >= self.full_text.len() {
            Animation {
                full_text: self.full_text,
                visible_text: self.full_text,
                index: self.index + 1,
                last_update: now,
                finished: true,
            }
        } else {
            Animation {
                full_text: self.full_text,
                visible_text: self.full_text.take(self.index + 1 as int),
                index: self.index + 1,
                last_update: now,
                finished: false,
            }
        }
    }

    /// The state after the rest of the animation is skipped.
    pub open spec fn skipped(self) -> Animation {
        Animation {
            full_text: self.full_text,
            visible_text: self.visible_text,
            index: self.index,
            last_update: self.last_update,
            finished: true,
        }
    }

    /// What holds of every state that `start`, `updated` and `skipped` lead
    /// to: the visible text is the first `index` characters of the full
    /// text, and an unfinished message has characters left to show.
    pub open spec fn wf(self) -> bool {
        &&& self.visible_text == self.full_text.take(
            if self.index <= self.full_text.len() {
                self.index as int
            } else {
                self.full_text.len() as int
            },
        )
        &&& !self.finished ==> self.index == 0 || self.index < self.full_text.len()
    }
}

/// Every state that is reached from the start is well-formed, and a step
/// never shortens what is shown.
pub proof fn lemma_update_preserves_wf(a: Animation, now: nat)
    requires
        a.wf(),
    ensures
        a.updated(now).wf(),
        a.skipped().wf(),
        a.visible_text.is_prefix_of(a.updated(now).visible_text),
        a.updated(now).full_text == a.full_text,
{
    let b = a.updated(now);
    if a.due(now) {
        if a.index + 1 >= a.full_text.len() {
            assert(b.visible_text =~= a.full_text.take(a.full_text.len() as int));
        }
        assert(b.visible_text.subrange(0, a.visible_text.len() as int) =~= a.visible_text);
    }
}

/// A started message is well-formed.
pub proof fn lemma_start_wf(full_text: Seq<char>, now: nat)
    ensures
        Animation::start(full_text, now).wf(),
{
    assert(full_text.take(0) =~= Seq::<char>::empty());
}

impl View for AnimatedMessage {
    type V = Animation;

    closed spec fn view(&self) -> Animation {
        Animation {
            full_text: self.full_text@,
            visible_text: self.visible_text@,
            index: self.index as nat,
            last_update: self.last_update as nat,
            finished: self.finished,
        }
    }
}

impl AnimatedMessage {
    /// An unfinished message has taken no step yet or has characters left
    /// to show.
    #[verifier::type_invariant]
    spec fn has_steps_left(self) -> bool {
        !self.finished ==> self.index == 0 || self.index < self.full_text@.len()
    }

    /// A message of which nothing is shown yet, started at `now`.
    pub fn new(full_text: String, now: u64) -> (message: Self)
        ensures
            message@ == Animation::start(full_text@, now as nat),
            message@.wf(),
    {
        proof {
            lemma_start_wf(full_text@, now as nat);
        }
        Self { full_text, visible_text: String::new(), index: 0, last_update: now, finished: false }
    }

    /// Shows one character more if the message is unfinished and more than
    /// the frame interval has passed since the last step.
    pub fn update(&mut self, now: u64)
        ensures
            final(self)@ == old(self)@.updated(now as nat),
            old(self)@.wf() ==> final(self)@.wf(),
    {
        proof {
            use_type_invariant(&*self);
            if self@.wf() {
                lemma_update_preserves_wf(self@, now as nat);
            }
        }
        if self.finished {
            return ;
        }
        let since: u64 = if now >= self.last_update {
            now - self.last_update
        } else {
            0
        };
        if since > FRAME_INTERVAL_NANOS {
            let total: usize = self.full_text.as_str().unicode_len();
            if self.index + 1 >= total {
                self.finished = true;
                self.index += 1;
                self.visible_text = self.full_text.clone();
            } else {
                self.index += 1;
                self.visible_text = self.full_text.as_str().substring_char(0, self.index).to_owned();
            }
            self.last_update = now;
        }
    }

    /// Ends the animation where it stands.
    pub fn skip(&mut self)
        ensures
            final(self)@ == old(self)@.skipped(),
            old(self)@.wf() ==> final(self)@.wf(),
    {
        self.finished = true;
    }

    /// The whole text.
    pub fn full_text(&self) -> (text: &str)
        ensures
            text@ == self@.full_text,
    {
        self.full_text.as_str()
    }

    /// The part of the text that is shown.
    pub fn visible_text(&self) -> (text: &str)
        ensures
            text@ == self@.visible_text,
    {
        self.visible_text.as_str()
    }

    /// The number of steps taken.
    pub fn index(&self) -> (index: usize)
        ensures
            index == self@.index,
    {
        self.index
    }

    /// Whether the animation is over.
    pub fn finished(&self) -> (finished: bool)
        ensures
            finished == self@.finished,
    {
        self.finished
    }
}

} // verus!
