//! Scrolling through the output: either following the newest lines or holding
//! a chosen top line while new output arrives.
use vstd::prelude::*;

verus! {

/// How far the top line can be from the first line.
pub open spec fn max_offset_of(total: nat, height: nat) -> nat {
    if total > height {
        (total - height) as nat
    } else {
        0
    }
}

/// A view of the output: `top_line` is `None` while it follows the newest lines.
#[derive(Debug)]
pub struct Scrollback {
    top_line: Option<usize>,
    total_lines: usize,
    visible_height: usize,
}

impl Scrollback {
    pub closed spec fn top(&self) -> Option<usize> {
        self.top_line
    }

    pub closed spec fn total(&self) -> nat {
        self.total_lines as nat
    }

    pub closed spec fn height(&self) -> nat {
        self.visible_height as nat
    }

    pub open spec fn max_offset_spec(&self) -> nat {
        max_offset_of(self.total(), self.height())
    }

    /// The top line shown: the held one, clamped, or the last page while following.
    pub open spec fn offset_spec(&self) -> nat {
        let o = match self.top() {
            Some(t) => if t < self.max_offset_spec() {
                t as nat
            } else {
                self.max_offset_spec()
            },
            None => self.max_offset_spec(),
        };
        if o < 65535 {
            o
        } else {
            65535
        }
    }

    /// The top line a scroll starts from.
    pub open spec fn current_top(&self) -> nat {
        match self.top() {
            Some(t) => if t < self.max_offset_spec() {
                t as nat
            } else {
                self.max_offset_spec()
            },
            None => self.max_offset_spec(),
        }
    }

    pub open spec fn page_size_spec(&self) -> nat {
        if self.height() > 1 {
            self.height()
        } else {
            1
        }
    }

    pub fn new() -> (r: Self)
        ensures
            r.top() is None,
            r.total() == 0,
            r.height() == 0,
    {
        Scrollback { top_line: None, total_lines: 0, visible_height: 0 }
    }

    fn max_offset(&self) -> (r: usize)
        ensures
            r == self.max_offset_spec(),
    {
        if self.total_lines > self.visible_height {
            self.total_lines - self.visible_height
        } else {
            0
        }
    }

    fn page_size(&self) -> (r: usize)
        ensures
            r == self.page_size_spec(),
    {
        if self.visible_height > 1 {
            self.visible_height
        } else {
            1
        }
    }

    /// Records the output's length and the viewport's height; once all output
    /// fits, the view follows the newest lines again.
    pub fn update_viewport(&mut self, total_lines: usize, visible_height: usize)
        ensures
            final(self).total() == total_lines,
            final(self).height() == visible_height,
            final(self).top() == if max_offset_of(total_lines as nat, visible_height as nat) == 0 {
                None
            } else {
                old(self).top()
            },
    {
        self.total_lines = total_lines;
        self.visible_height = visible_height;
        if self.max_offset() == 0 {
            self.top_line = None;
        }
    }

    /// Scrolls up one viewport.
    pub fn page_up(&mut self)
        ensures
            final(self).total() == old(self).total(),
            final(self).height() == old(self).height(),
            final(self).top() == if old(self).max_offset_spec() == 0 {
                None
            } else {
                Some(
                    (if old(self).current_top() > old(self).page_size_spec() {
                        old(self).current_top() - old(self).page_size_spec()
                    } else {
                        0
                    }) as usize,
                )
            },
    {
        let n = self.page_size();
        self.scroll_up(n);
    }

    /// Scrolls down one viewport, following the newest lines at the bottom.
    pub fn page_down(&mut self)
        ensures
            final(self).total() == old(self).total(),
            final(self).height() == old(self).height(),
            final(self).top() == if old(self).max_offset_spec() == 0 || old(self).current_top()
                + old(self).page_size_spec() >= old(self).max_offset_spec() {
                None
            } else {
                Some((old(self).current_top() + old(self).page_size_spec()) as usize)
            },
    {
        let n = self.page_size();
        self.scroll_down(n);
    }

    /// Scrolls up by `line_count` lines (at least one), stopping at the first line.
    pub fn scroll_up(&mut self, line_count: usize)
        ensures
            final(self).total() == old(self).total(),
            final(self).height() == old(self).height(),
            final(self).top() == if old(self).max_offset_spec() == 0 {
                None
            } else {
                let step: nat = if line_count > 1 {
                    line_count as nat
                } else {
                    1
                };
                Some(
                    (if old(self).current_top() > step {
                        old(self).current_top() - step
                    } else {
                        0
                    }) as usize,
                )
            },
    {
        let max_offset = self.max_offset();
        if max_offset == 0 {
            self.top_line = None;
            return;
        }
        let current = match self.top_line {
            Some(t) => if t < max_offset {
                t
            } else {
                max_offset
            },
            None => max_offset,
        };
        let step = if line_count > 1 {
            line_count
        } else {
            1
        };
        self.top_line = Some(current.saturating_sub(step));
    }

    /// Scrolls down by `line_count` lines (at least one); reaching the bottom
    /// returns to following the newest lines.
    pub fn scroll_down(&mut self, line_count: usize)
        ensures
            final(self).total() == old(self).total(),
            final(self).height() == old(self).height(),
            final(self).top() == if old(self).max_offset_spec() == 0 {
                None
            } else {
                let step: nat = if line_count > 1 {
                    line_count as nat
                } else {
                    1
                };
                if old(self).current_top() + step >= old(self).max_offset_spec() {
                    None
                } else {
                    Some((old(self).current_top() + step) as usize)
                }
            },
    {
        let max_offset = self.max_offset();
        if max_offset == 0 {
            self.top_line = None;
            return;
        }
        let current = match self.top_line {
            Some(t) => if t < max_offset {
                t
            } else {
                max_offset
            },
            None => max_offset,
        };
        let step = if line_count > 1 {
            line_count
        } else {
            1
        };
        let next = current.saturating_add(step);
        if next >= max_offset {
            self.follow_latest();
        } else {
            self.top_line = Some(next);
        }
    }

    /// Follows the newest lines.
    pub fn follow_latest(&mut self)
        ensures
            final(self).top() is None,
            final(self).total() == old(self).total(),
            final(self).height() == old(self).height(),
    {
        self.top_line = None;
    }

    /// The index of the top line shown, capped at `u16::MAX`.
    pub fn offset(&self) -> (r: u16)
        ensures
            r == self.offset_spec(),
    {
        let max_offset = self.max_offset();
        let o = match self.top_line {
            Some(t) => if t < max_offset {
                t
            } else {
                max_offset
            },
            None => max_offset,
        };
        if o < 65535 {
            o as u16
        } else {
            65535
        }
    }
}

/// While following, the view shows the last page whatever the output's length.
pub proof fn law_following_shows_last_page(s: Scrollback)
    requires
        s.top() is None,
        s.max_offset_spec() < 65535,
    ensures
        s.offset_spec() == s.max_offset_spec(),
{
}

/// Once all output fits the viewport, the view shows the first line.
pub proof fn law_fitting_output_shows_everything(s: Scrollback)
    requires
        s.total() <= s.height(),
    ensures
        s.offset_spec() == 0,
{
}

} // verus!
