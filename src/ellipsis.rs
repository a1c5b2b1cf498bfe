use vstd::prelude::*;

verus! {

/// A label text being cut down to fit a width: the first `kept` characters
/// of the full text, then an ellipsis once anything has been cut.
pub struct Ellipsis {
    full: String,
    kept: usize,
}

/// What a label shows of `full` when `kept` characters of it are kept.
pub open spec fn shown_text(full: Seq<char>, kept: int) -> Seq<char> {
    if kept < full.len() {
        full.subrange(0, kept) + seq!['\u{2026}']
    } else {
        full
    }
}

impl Ellipsis {
    pub closed spec fn full(&self) -> Seq<char> {
        self.full@
    }

    pub closed spec fn kept(&self) -> int {
        self.kept as int
    }

    pub open spec fn wf(&self) -> bool {
        0 <= self.kept() <= self.full().len()
    }

    /// The whole of `text`, nothing cut yet.
    pub fn new(text: String) -> (r: Ellipsis)
        ensures
            r.wf(),
            r.full() == text@,
            r.kept() == text@.len(),
    {
        let kept = text.as_str().unicode_len();
        Ellipsis { full: text, kept }
    }

    /// The text to show now (see `shown_text`).
    pub fn shown(&self) -> (r: String)
        requires
            self.wf(),
        ensures
            r@ == shown_text(self.full(), self.kept()),
    {
        if self.kept < self.full.as_str().unicode_len() {
            let head = String::from_str(self.full.as_str().substring_char(0, self.kept));
            proof {
                reveal_strlit("\u{2026}");
            }
            head.concat("\u{2026}")
        } else {
            self.full.clone()
        }
    }

    /// Whether anything has been cut.
    pub fn is_cut(&self) -> (r: bool)
        requires
            self.wf(),
        ensures
            r == (self.kept() < self.full().len()),
    {
        self.kept < self.full.as_str().unicode_len()
    }

    /// Whether a character is left to cut.
    pub fn can_shorten(&self) -> (r: bool)
        ensures
            r == (self.kept() > 0),
    {
        self.kept > 0
    }

    /// Cuts the last kept character.
    pub fn shorten(&mut self)
        requires
            old(self).wf(),
            old(self).kept() > 0,
        ensures
            final(self).wf(),
            final(self).full() == old(self).full(),
            final(self).kept() == old(self).kept() - 1,
    {
        self.kept = self.kept - 1;
    }
}

} // verus!
