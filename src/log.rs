//! The orchestrator's progress log: append-only text that keeps a bounded
//! trailing window.
use vstd::prelude::*;

verus! {

/// Once the text grows past this many characters ...
pub const LOG_LIMIT: usize = 120_000;

/// ... only this many of the last characters are kept.
pub const LOG_KEEP: usize = 60_000;

/// `s` appended to `text`, then cut to its last `LOG_KEEP` characters when
/// the whole is longer than `LOG_LIMIT`.
pub open spec fn bounded_append(text: Seq<char>, s: Seq<char>) -> Seq<char> {
    let t = text + s;
    if t.len() > LOG_LIMIT {
        t.subrange(t.len() - LOG_KEEP, t.len() as int)
    } else {
        t
    }
}

pub struct RunLog {
    text: String,
    chars: usize,
}

impl View for RunLog {
    type V = Seq<char>;

    closed spec fn view(&self) -> Seq<char> {
        self.text@
    }
}

impl RunLog {
    pub closed spec fn wf(&self) -> bool {
        self.chars == self.text@.len() && self.chars <= LOG_LIMIT
    }

    pub fn new() -> (r: Self)
        ensures
            r.wf(),
            r@ == Seq::<char>::empty(),
    {
        RunLog { text: String::new(), chars: 0 }
    }

    /// Appends `s`, keeping a bounded trailing window.
    pub fn append_log(&mut self, s: &str)
        requires
            old(self).wf(),
        ensures
            final(self).wf(),
            final(self)@ == bounded_append(old(self)@, s@),
    {
        let n = s.unicode_len();
        let total: u128 = self.chars as u128 + n as u128;
        self.text.append(s);
        if total > LOG_LIMIT as u128 {
            let len = self.text.as_str().unicode_len();
            let kept = String::from_str(self.text.as_str().substring_char(len - LOG_KEEP, len));
            self.text = kept;
            self.chars = LOG_KEEP;
        } else {
            self.chars = total as usize;
        }
    }

    /// Appending nothing changes nothing.
    pub proof fn lemma_append_nothing(&self)
        requires
            self.wf(),
        ensures
            bounded_append(self@, Seq::<char>::empty()) == self@,
    {
        assert(self@ + Seq::<char>::empty() =~= self@);
    }

    /// The text kept so far.
    pub fn contents(&self) -> (r: String)
        ensures
            r@ == self@,
    {
        self.text.clone()
    }
}

} // verus!
