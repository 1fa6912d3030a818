//! Cursor and view offset of a list that shows a window of its items.
use vstd::prelude::*;

verus! {

/// Handles scrolling logic.
///
/// The view is always a whole number of items from the top, so it never
/// shows a partial item.
pub struct Scroll {
    length: i32,
    max_view_size: i32,
    cursor: i32,
    scroll: i32,
}

/// The number of items that fit inside the view.
pub open spec fn view_size_of(length: int, max_view_size: int) -> int {
    if length < max_view_size {
        length
    } else {
        max_view_size
    }
}

impl Scroll {
    #[verifier::type_invariant]
    spec fn inv(&self) -> bool {
        &&& 0 <= self.length
        &&& 0 <= self.max_view_size
        &&& -1 <= self.cursor <= self.length
        &&& 0 <= self.scroll <= self.length
    }

    pub closed spec fn spec_length(&self) -> int {
        self.length as int
    }

    pub closed spec fn spec_max_view_size(&self) -> int {
        self.max_view_size as int
    }

    pub closed spec fn spec_cursor(&self) -> int {
        self.cursor as int
    }

    pub closed spec fn spec_scroll(&self) -> int {
        self.scroll as int
    }

    pub open spec fn spec_view_size(&self) -> int {
        view_size_of(self.spec_length(), self.spec_max_view_size())
    }

    /// Creates a new instance.
    /// - length: number of items in the list
    /// - max_view_size: number of items that can be displayed at once
    pub fn new(length: i32, max_view_size: i32) -> (r: Self)
        requires
            0 <= length,
            0 <= max_view_size,
        ensures
            r.spec_length() == length,
            r.spec_max_view_size() == max_view_size,
            r.spec_cursor() == 0,
            r.spec_scroll() == 0,
    {
        Scroll { length, max_view_size, cursor: 0, scroll: 0 }
    }

    /// Move the cursor up by one item; from the top, wrap to the bottom.
    pub fn cursor_up(&mut self)
        ensures
            final(self).spec_length() == old(self).spec_length(),
            final(self).spec_max_view_size() == old(self).spec_max_view_size(),
            old(self).spec_cursor() <= 0 ==> final(self).spec_cursor() == old(self).spec_length()
                - 1 && final(self).spec_scroll() == old(self).spec_length()
                - old(self).spec_view_size(),
            old(self).spec_cursor() > 0 ==> final(self).spec_cursor() == old(self).spec_cursor()
                - 1 && final(self).spec_scroll() == if old(self).spec_scroll() < old(self).spec_cursor() - 1 {
                old(self).spec_scroll()
            } else {
                old(self).spec_cursor() - 1
            },
    {
        proof {
            use_type_invariant(&*self);
        }
        if self.cursor <= 0 {
            self.bottom();
        } else {
            let cursor = self.cursor - 1;
            let scroll = if self.scroll < cursor {
                self.scroll
            } else {
                cursor
            };
            self.cursor = cursor;
            self.scroll = scroll;
        }
    }

    /// Move the cursor down by one item; from the bottom, wrap to the top.
    pub fn cursor_down(&mut self)
        ensures
            final(self).spec_length() == old(self).spec_length(),
            final(self).spec_max_view_size() == old(self).spec_max_view_size(),
            old(self).spec_cursor() >= old(self).spec_length() - 1 ==> final(self).spec_cursor()
                == 0 && final(self).spec_scroll() == 0,
            old(self).spec_cursor() < old(self).spec_length() - 1 ==> final(self).spec_cursor()
                == old(self).spec_cursor() + 1 && final(self).spec_scroll() == if old(self).spec_scroll() > old(self).spec_cursor() + 1 - old(self).spec_view_size() + 1 {
                old(self).spec_scroll()
            } else {
                old(self).spec_cursor() + 1 - old(self).spec_view_size() + 1
            },
    {
        proof {
            use_type_invariant(&*self);
        }
        if self.cursor >= self.length - 1 {
            self.top();
        } else {
            let cursor = self.cursor + 1;
            let lowest = cursor - self.view_size() + 1;
            let scroll = if self.scroll > lowest {
                self.scroll
            } else {
                lowest
            };
            self.cursor = cursor;
            self.scroll = scroll;
        }
    }

    /// Move the view up one page.
    pub fn page_up(&mut self)
        ensures
            final(self).spec_length() == old(self).spec_length(),
            final(self).spec_max_view_size() == old(self).spec_max_view_size(),
            old(self).spec_scroll() - old(self).spec_view_size() <= 0 ==> final(self).spec_cursor()
                == 0 && final(self).spec_scroll() == 0,
            old(self).spec_scroll() - old(self).spec_view_size() > 0 ==> final(self).spec_scroll()
                == old(self).spec_scroll() - old(self).spec_view_size() && final(self).spec_cursor()
                == final(self).spec_scroll(),
    {
        proof {
            use_type_invariant(&*self);
        }
        if self.scroll - self.view_size() <= 0 {
            self.top();
        } else {
            let scroll = self.scroll - self.view_size();
            self.scroll = scroll;
            self.cursor = scroll;
        }
    }

    /// Move the view down one page.
    pub fn page_down(&mut self)
        ensures
            final(self).spec_length() == old(self).spec_length(),
            final(self).spec_max_view_size() == old(self).spec_max_view_size(),
            old(self).spec_scroll() + old(self).spec_view_size() * 2 >= old(self).spec_length()
                ==> final(self).spec_cursor() == old(self).spec_length() - 1 && final(self).spec_scroll() == old(self).spec_length() - old(self).spec_view_size(),
            old(self).spec_scroll() + old(self).spec_view_size() * 2 < old(self).spec_length()
                ==> final(self).spec_scroll() == old(self).spec_scroll() + old(self).spec_view_size() && final(self).spec_cursor() == final(self).spec_scroll() + old(self).spec_view_size() - 1,
    {
        proof {
            use_type_invariant(&*self);
        }
        let view = self.view_size() as i64;
        if self.scroll as i64 + view * 2 >= self.length as i64 {
            self.bottom();
        } else {
            let scroll = self.scroll + self.view_size();
            let cursor = scroll + self.view_size() - 1;
            self.scroll = scroll;
            self.cursor = cursor;
        }
    }

    /// Move the view and cursor to the top.
    pub fn top(&mut self)
        ensures
            final(self).spec_length() == old(self).spec_length(),
            final(self).spec_max_view_size() == old(self).spec_max_view_size(),
            final(self).spec_cursor() == 0,
            final(self).spec_scroll() == 0,
    {
        proof {
            use_type_invariant(&*self);
        }
        *self = Scroll { length: self.length, max_view_size: self.max_view_size, cursor: 0, scroll: 0 };
    }

    /// Move the view and cursor to the bottom.
    pub fn bottom(&mut self)
        ensures
            final(self).spec_length() == old(self).spec_length(),
            final(self).spec_max_view_size() == old(self).spec_max_view_size(),
            final(self).spec_cursor() == old(self).spec_length() - 1,
            final(self).spec_scroll() == old(self).spec_length() - old(self).spec_view_size(),
    {
        proof {
            use_type_invariant(&*self);
        }
        let cursor = self.length - 1;
        let scroll = self.length - self.view_size();
        self.cursor = cursor;
        self.scroll = scroll;
    }

    /// Set the number of items in the list, and go back to the top.
    pub fn set_length(&mut self, length: i32)
        requires
            0 <= length,
        ensures
            final(self).spec_length() == length,
            final(self).spec_max_view_size() == old(self).spec_max_view_size(),
            final(self).spec_cursor() == 0,
            final(self).spec_scroll() == 0,
    {
        proof {
            use_type_invariant(&*self);
        }
        *self = Scroll { length, max_view_size: self.max_view_size, cursor: 0, scroll: 0 };
    }

    /// Gets the number of items that fit inside the view.
    pub fn view_size(&self) -> (r: i32)
        ensures
            r == self.spec_view_size(),
    {
        if self.length < self.max_view_size {
            self.length
        } else {
            self.max_view_size
        }
    }

    /// Gets the cursor position.
    pub fn cursor(&self) -> (r: i32)
        ensures
            r == self.spec_cursor(),
    {
        self.cursor
    }

    /// Gets the view's offset from the top of the list.
    pub fn scroll(&self) -> (r: i32)
        ensures
            r == self.spec_scroll(),
    {
        self.scroll
    }

    /// Gets the length of the list.
    pub fn length(&self) -> (r: i32)
        ensures
            r == self.spec_length(),
    {
        self.length
    }
}

} // verus!
