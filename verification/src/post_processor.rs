//! The effects that are laid over the finished scene.

use vstd::prelude::*;

verus! {

/// Which effects are switched on.
#[derive(Clone, Copy, Debug, PartialEq, Eq, Structural)]
pub struct PostProcessor {
    /// The picture trembles.
    pub shake: bool,
    /// Colours and directions are reversed.
    pub confuse: bool,
    /// The picture circles and shows its edges.
    pub chaos: bool,
}

/// What the effects shader is given for one frame.
#[derive(Clone, Copy, Debug, PartialEq, Eq, Structural)]
pub struct EffectUniforms {
    pub shake: bool,
    pub confuse: bool,
    pub chaos: bool,
    /// Milliseconds since the start, which move the trembling along.
    pub time: u64,
}

impl PostProcessor {
    /// No effect is on.
    pub fn new() -> (effects: PostProcessor)
        ensures
            effects == (PostProcessor { shake: false, confuse: false, chaos: false }),
    {
        PostProcessor { shake: false, confuse: false, chaos: false }
    }

    /// The values for the frame drawn at `time`.
    pub fn render(&self, time: u64) -> (uniforms: EffectUniforms)
        ensures
            uniforms == (EffectUniforms {
                shake: self.shake,
                confuse: self.confuse,
                chaos: self.chaos,
                time,
            }),
    {
        EffectUniforms { shake: self.shake, confuse: self.confuse, chaos: self.chaos, time }
    }
}

} // verus!
