//! The rotation of picture levels a session can play through.

use vstd::prelude::*;
use vstd::string::StringExecFns;
use crate::rng::random_in_range;

verus! {

/// How many picture levels ship with the game.
pub const TOTAL_LEVEL: usize = 2;

/// One playable picture: the path of its source image.
pub struct Level {
    path: String,
}

impl Level {
    /// The characters of this level's image path.
    pub closed spec fn spec_path(&self) -> Seq<char> {
        self.path@
    }

    /// The path of the image this level is cut from.
    pub fn get_path(&self) -> (path: &str)
        ensures
            path@ == self.spec_path(),
    {
        self.path.as_str()
    }
}

/// The level rotation: all levels, and which one is current.
pub struct Levels {
    all: Vec<Level>,
    current: usize,
}

impl Levels {
    /// The levels of the rotation.
    pub closed spec fn spec_levels(&self) -> Seq<Level> {
        self.all@
    }

    /// The index of the current level.
    pub closed spec fn spec_current(&self) -> int {
        self.current as int
    }

    /// The rotation always holds the shipped levels, and the cursor points
    /// at one of them.
    pub open spec fn wf(&self) -> bool {
        &&& self.spec_levels().len() == TOTAL_LEVEL
        &&& 0 <= self.spec_current() < TOTAL_LEVEL
    }

    /// The level the next board is cut from.
    pub fn current_level(&self) -> (level: &Level)
        requires
            self.wf(),
        ensures
            *level == self.spec_levels()[self.spec_current()],
    {
        &self.all[self.current]
    }

    /// Steps to the next level, wrapping around at the end.
    pub fn next_level(&mut self)
        requires
            old(self).wf(),
        ensures
            final(self).wf(),
            final(self).spec_levels() == old(self).spec_levels(),
            final(self).spec_current() == (old(self).spec_current() + 1) % (TOTAL_LEVEL as int),
    {
        self.current = (self.current + 1) % TOTAL_LEVEL;
    }

    /// Jumps to a level drawn at random.
    pub fn random_level(&mut self)
        requires
            old(self).wf(),
        ensures
            final(self).wf(),
            final(self).spec_levels() == old(self).spec_levels(),
    {
        let drawn = random_in_range(0, TOTAL_LEVEL as i64);
        self.current = drawn as usize;
    }
}

impl Default for Levels {
    /// The shipped rotation, starting at its first level.
    fn default() -> (levels: Levels)
        ensures
            levels.wf(),
            levels.spec_current() == 0,
    {
        let mut all: Vec<Level> = Vec::new();
        all.push(Level { path: String::from_str("assets/resources/1.jpg") });
        all.push(Level { path: String::from_str("assets/resources/2.jpg") });
        Levels { all, current: 0 }
    }
}

} // verus!
