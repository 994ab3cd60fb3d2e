use vstd::prelude::*;

verus! {

/// Flag bit that enables the table of nodes by `id`.
const TRACK_IDS: u8 = 1;

/// Flag bit that enables the table of nodes by class name.
const TRACK_CLASSES: u8 = 2;

/// Options for the markup parser.
///
/// The default options are meant for raw parsing. Tag lookups by id or by
/// class name can be made O(1) by enabling tracking, which makes the parser
/// record nodes in lookup tables as they appear.
#[derive(Debug, Clone, Copy, PartialEq, Eq, Structural)]
pub struct ParserOptions(u8);

impl ParserOptions {
    /// No bits but the two flags are ever set.
    #[verifier::type_invariant]
    spec fn only_known_flags(self) -> bool {
        self.0 < 4
    }

    /// Whether the table of nodes by `id` is kept.
    pub closed spec fn tracks_ids(self) -> bool {
        self.0 & TRACK_IDS != 0
    }

    /// Whether the table of nodes by class name is kept.
    pub closed spec fn tracks_classes(self) -> bool {
        self.0 & TRACK_CLASSES != 0
    }

    /// Creates options with no flag set.
    pub fn new() -> (r: Self)
        ensures
            !r.tracks_ids(),
            !r.tracks_classes(),
    {
        Self::default()
    }

    fn set_flag(&mut self, flag: u8)
        requires
            flag == TRACK_IDS || flag == TRACK_CLASSES,
        ensures
            final(self).tracks_ids() == (old(self).tracks_ids() || flag == TRACK_IDS),
            final(self).tracks_classes() == (old(self).tracks_classes() || flag == TRACK_CLASSES),
    {
        proof {
            use_type_invariant(&*self);
        }
        let x = self.0;
        assert((x | flag) < 4 && ((x | flag) & 1 != 0) == (x & 1 != 0 || flag == 1) && ((x
            | flag) & 2 != 0) == (x & 2 != 0 || flag == 2)) by (bit_vector)
            requires
                x < 4,
                flag == 1 || flag == 2,
        ;
        self.0 = x | flag;
    }

    fn has_flag(&self, flag: u8) -> (r: bool)
        ensures
            r == (self.0 & flag != 0),
    {
        self.0 & flag != 0
    }

    /// Enables tracking of tag ids, which makes lookups by id ~O(1).
    pub fn track_ids(self) -> (r: Self)
        ensures
            r.tracks_ids(),
            r.tracks_classes() == self.tracks_classes(),
    {
        let mut r = self;
        r.set_flag(TRACK_IDS);
        r
    }

    /// Enables tracking of tag classes, which makes lookups by class name ~O(1).
    pub fn track_classes(self) -> (r: Self)
        ensures
            r.tracks_classes(),
            r.tracks_ids() == self.tracks_ids(),
    {
        let mut r = self;
        r.set_flag(TRACK_CLASSES);
        r
    }

    /// Returns whether tag ids are tracked.
    pub fn is_tracking_ids(&self) -> (r: bool)
        ensures
            r == self.tracks_ids(),
    {
        self.has_flag(TRACK_IDS)
    }

    /// Returns whether tag classes are tracked.
    pub fn is_tracking_classes(&self) -> (r: bool)
        ensures
            r == self.tracks_classes(),
    {
        self.has_flag(TRACK_CLASSES)
    }

    /// Returns whether tag ids or tag classes are tracked.
    pub fn is_tracking(&self) -> (r: bool)
        ensures
            r == (self.tracks_ids() || self.tracks_classes()),
    {
        proof {
            use_type_invariant(self);
        }
        let x = self.0;
        assert((x > 0) == (x & 1 != 0 || x & 2 != 0)) by (bit_vector)
            requires
                x < 4,
        ;
        // With only the two flags in use, any set bit is one of them.
        x > 0
    }
}

impl Default for ParserOptions {
    fn default() -> (r: Self)
        ensures
            !r.tracks_ids(),
            !r.tracks_classes(),
    {
        let r = ParserOptions(0);
        assert(0u8 & 1 == 0 && 0u8 & 2 == 0) by (bit_vector);
        r
    }
}

} // verus!
