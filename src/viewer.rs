//! The state of a frame viewer: the loaded frames, the frame on display, and
//! the file pick whose result it waits for.
use vstd::prelude::*;
use crate::bean::Java;
use crate::trame::{Timestamp, Trame};
use crate::transform::{frames_of, models, transform_to_trame, TransformError};

verus! {

/// Why a decoded document did not replace the frames on display.
#[derive(Clone, Copy, Debug, PartialEq, Eq, Structural)]
pub enum LoadError {
    /// The document answers a pick that a later pick has superseded.
    Stale,
    /// The document does not transform into frames.
    Transform(TransformError),
}

/// Viewer state. `index` is the frame on display, or `None` when nothing is
/// shown; after `next` it may stand one past the last frame until `settle`.
pub struct Viewer {
    pub trames: Vec<Trame>,
    pub index: Option<usize>,
    pub picked_path: Option<String>,
    /// Counts the picks started; only the result of the latest one is taken.
    pub generation: u64,
}

/// The index after "next": one further, up to one past the last frame.
pub open spec fn next_index(i: Option<usize>, len: nat) -> Option<usize> {
    match i {
        Some(k) => if k < len {
            Some((k + 1) as usize)
        } else {
            Some(k)
        },
        None => None,
    }
}

/// The index after "previous": one back, never below the first frame.
pub open spec fn previous_index(i: Option<usize>) -> Option<usize> {
    match i {
        Some(k) => if k > 0 {
            Some((k - 1) as usize)
        } else {
            Some(k)
        },
        None => None,
    }
}

/// The index brought back within the frames: past the end it becomes the last
/// frame, and with no frames nothing is shown.
pub open spec fn settled_index(i: Option<usize>, len: nat) -> Option<usize> {
    match i {
        Some(k) => if k < len {
            Some(k)
        } else if len > 0 {
            Some((len - 1) as usize)
        } else {
            None
        },
        None => None,
    }
}

impl Viewer {
    pub open spec fn wf(&self) -> bool {
        self.index matches Some(k) ==> k <= self.trames@.len()
    }

    /// A viewer with no frames and no pick started.
    pub fn new() -> (r: Viewer)
        ensures
            r.wf(),
            r.trames@.len() == 0,
            r.index is None,
            r.picked_path is None,
            r.generation == 0,
    {
        Viewer { trames: Vec::new(), index: None, picked_path: None, generation: 0 }
    }

    /// Starts a new pick, superseding any earlier one, and returns its tag.
    pub fn begin_pick(&mut self) -> (g: u64)
        requires
            old(self).wf(),
        ensures
            final(self).wf(),
            g == old(self).generation.wrapping_add(1),
            final(self).generation == g,
            final(self).trames == old(self).trames,
            final(self).index == old(self).index,
            final(self).picked_path == old(self).picked_path,
    {
        self.generation = self.generation.wrapping_add(1);
        self.generation
    }

    /// Whether a result tagged `g` answers the latest pick.
    pub fn is_current(&self, g: u64) -> (r: bool)
        ensures
            r == (g == self.generation),
    {
        g == self.generation
    }

    /// Takes the decoded document of the pick tagged `g`, read from `path`.
    /// A stale or failing document leaves the viewer as it was.
    pub fn load(&mut self, g: u64, path: String, doc: Java) -> (r: Result<(), LoadError>)
        requires
            old(self).wf(),
        ensures
            final(self).wf(),
            final(self).generation == old(self).generation,
            g != old(self).generation ==> r == Err::<(), LoadError>(LoadError::Stale),
            r is Err ==> final(self).trames == old(self).trames && final(self).index == old(
                self,
            ).index && final(self).picked_path == old(self).picked_path,
            g == old(self).generation ==> exists|now: Timestamp|
                now.millis >= 0 && match #[trigger] frames_of(doc.objects@, now) {
                    Ok(s) => r is Ok && models(final(self).trames@) == s && final(self).index
                        == Some(0usize) && final(self).picked_path == Some(path),
                    Err(e) => r == Err::<(), LoadError>(LoadError::Transform(e)),
                },
    {
        if g != self.generation {
            return Err(LoadError::Stale);
        }
        match transform_to_trame(doc) {
            Ok(v) => {
                self.trames = v;
                self.index = Some(0);
                self.picked_path = Some(path);
                Ok(())
            },
            Err(e) => Err(LoadError::Transform(e)),
        }
    }

    /// Steps back one frame, stopping at the first.
    pub fn previous(&mut self)
        requires
            old(self).wf(),
        ensures
            final(self).wf(),
            final(self).index == previous_index(old(self).index),
            final(self).trames == old(self).trames,
            final(self).picked_path == old(self).picked_path,
            final(self).generation == old(self).generation,
    {
        if let Some(k) = self.index {
            if k > 0 {
                self.index = Some(k - 1);
            }
        }
    }

    /// Steps forward one frame; past the last one, `settle` brings it back.
    pub fn next(&mut self)
        requires
            old(self).wf(),
        ensures
            final(self).wf(),
            final(self).index == next_index(old(self).index, old(self).trames@.len()),
            final(self).trames == old(self).trames,
            final(self).picked_path == old(self).picked_path,
            final(self).generation == old(self).generation,
    {
        if let Some(k) = self.index {
            if k < self.trames.len() {
                self.index = Some(k + 1);
            }
        }
    }

    /// Brings the index back within the frames and returns the one to display.
    pub fn settle(&mut self) -> (r: Option<usize>)
        requires
            old(self).wf(),
        ensures
            final(self).wf(),
            final(self).index == settled_index(old(self).index, old(self).trames@.len()),
            r == final(self).index,
            r matches Some(k) ==> k < final(self).trames@.len(),
            final(self).trames == old(self).trames,
            final(self).picked_path == old(self).picked_path,
            final(self).generation == old(self).generation,
    {
        if let Some(k) = self.index {
            if k >= self.trames.len() {
                if self.trames.len() > 0 {
                    self.index = Some(self.trames.len() - 1);
                } else {
                    self.index = None;
                }
            }
        }
        self.index
    }
}

/// "next" then settling, applied `n` times from index `i`.
pub open spec fn next_settled_times(i: Option<usize>, len: nat, n: nat) -> Option<usize>
    decreases n,
{
    if n == 0 {
        i
    } else {
        settled_index(next_index(next_settled_times(i, len, (n - 1) as nat), len), len)
    }
}

/// "previous" applied `n` times from index `i`.
pub open spec fn previous_times(i: Option<usize>, n: nat) -> Option<usize>
    decreases n,
{
    if n == 0 {
        i
    } else {
        previous_index(previous_times(i, (n - 1) as nat))
    }
}

/// On the last frame, any number of "next" steps, each settled, keeps the
/// viewer on the last frame; on the first frame, any number of "previous"
/// steps keeps it on the first.
pub proof fn lemma_navigation_saturates(len: nat, n: nat)
    requires
        0 < len <= usize::MAX,
    ensures
        next_settled_times(Some((len - 1) as usize), len, n) == Some((len - 1) as usize),
        previous_times(Some(0usize), n) == Some(0usize),
    decreases n,
{
    if n > 0 {
        lemma_navigation_saturates(len, (n - 1) as nat);
    }
}

} // verus!
