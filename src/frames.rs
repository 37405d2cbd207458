use vstd::prelude::*;

verus! {

/// Reads rows of an append-only trace, sorted by frame, one frame at a time.
///
/// The first row of the next frame is held back when it turns up, and handed out when that
/// frame is read. Rows of frames already passed are skipped.
pub struct FrameCursor<T> {
    held: Option<(u64, T)>,
}

impl<T> FrameCursor<T> {
    /// The row held back, with its frame.
    pub closed spec fn held(&self) -> Option<(u64, T)> {
        self.held
    }

    pub fn new() -> (r: Self)
        ensures
            r.held() is None,
    {
        FrameCursor { held: None }
    }

    /// Starts reading `frame`. Returns the held row when it belongs to `frame`, and whether
    /// reading goes on: it stops when the held row belongs to a later frame, which stays held.
    pub fn begin(&mut self, frame: u64) -> (r: (Option<T>, bool))
        ensures
            match old(self).held() {
                None => r == (None::<T>, true) && final(self).held() is None,
                Some((f, row)) => if f == frame {
                    r == (Some(row), true) && final(self).held() is None
                } else if f > frame {
                    r == (None::<T>, false) && final(self).held() == old(self).held()
                } else {
                    r == (None::<T>, true) && final(self).held() is None
                },
            },
    {
        match self.held.take() {
            None => (None, true),
            Some((f, row)) => {
                if f == frame {
                    (Some(row), true)
                } else if f > frame {
                    self.held = Some((f, row));
                    (None, false)
                } else {
                    (None, true)
                }
            },
        }
    }

    /// Takes the next row read while reading `frame`. A row of `frame` is handed out, a row of
    /// an earlier frame is dropped, and a row of a later frame is held and ends the reading.
    pub fn offer(&mut self, frame: u64, row_frame: u64, row: T) -> (r: (Option<T>, bool))
        ensures
            row_frame == frame ==> r == (Some(row), true) && final(self).held() == old(self).held(),
            row_frame < frame ==> r == (None::<T>, true) && final(self).held() == old(self).held(),
            row_frame > frame ==> r == (None::<T>, false) && final(self).held() == Some((row_frame, row)),
    {
        if row_frame == frame {
            (Some(row), true)
        } else if row_frame < frame {
            (None, true)
        } else {
            self.held = Some((row_frame, row));
            (None, false)
        }
    }
}

} // verus!
