use vstd::prelude::*;

verus! {

/// One command of a frame, in the order the backend must run them.
#[derive(Clone, Copy, Debug, PartialEq, Eq)]
pub enum Command {
    /// Write this frame's shared parameters.
    UploadParameters,
    /// Copy the whole current particle buffer into the previous one.
    CopyCurrentToPrevious,
    /// Integrate gravity for `time_step` seconds, reading the previous buffer
    /// and writing the current one.
    Compute { time_step: u32 },
    /// Draw the first `count` particles of the current buffer.
    Draw { count: u32 },
}

/// The ordered commands of one frame.
pub open spec fn frame_commands_spec(time_step: u32, particle_count: u32) -> Seq<Command> {
    seq![
        Command::UploadParameters,
        Command::CopyCurrentToPrevious,
        Command::Compute { time_step },
        Command::Draw { count: particle_count },
    ]
}

/// The commands of one frame: parameters, then the copy, then the compute
/// stage, and only then the draw.
pub fn frame_commands(time_step: u32, particle_count: u32) -> (r: Vec<Command>)
    ensures
        r@ == frame_commands_spec(time_step, particle_count),
{
    let r = vec![
        Command::UploadParameters,
        Command::CopyCurrentToPrevious,
        Command::Compute { time_step },
        Command::Draw { count: particle_count },
    ];
    assert(r@ =~= frame_commands_spec(time_step, particle_count));
    r
}

/// The two particle buffers, as (previous, current), after one step whose
/// compute stage produced `computed`.
pub open spec fn stepped(s: (Seq<u8>, Seq<u8>), computed: Seq<u8>) -> (Seq<u8>, Seq<u8>) {
    (s.1, computed)
}

/// The two buffers after one step per entry of `results`, in order.
pub open spec fn run_steps(s: (Seq<u8>, Seq<u8>), results: Seq<Seq<u8>>) -> (Seq<u8>, Seq<u8>)
    decreases results.len(),
{
    if results.len() == 0 {
        s
    } else {
        stepped(run_steps(s, results.drop_last()), results.last())
    }
}

/// The double-buffered particle state: `previous` is what the compute stage
/// reads, `current` what it writes and what is drawn. Both keep the size
/// they were seeded with.
pub struct ParticleStore {
    previous: Vec<u8>,
    current: Vec<u8>,
}

impl ParticleStore {
    /// (previous, current).
    pub closed spec fn view(&self) -> (Seq<u8>, Seq<u8>) {
        (self.previous@, self.current@)
    }

    pub open spec fn wf(&self) -> bool {
        self@.0.len() == self@.1.len()
    }

    /// Seeds the current buffer; the previous one holds zeros until the first step.
    pub fn new(seed: Vec<u8>) -> (r: ParticleStore)
        ensures
            r@.1 == seed@,
            r@.0 == Seq::new(seed@.len(), |i: int| 0u8),
            r.wf(),
    {
        let mut previous: Vec<u8> = Vec::new();
        let mut i: usize = 0;
        while i < seed.len()
            invariant
                i <= seed@.len(),
                previous@ == Seq::new(i as nat, |j: int| 0u8),
            decreases seed@.len() - i,
        {
            previous.push(0u8);
            i = i + 1;
            assert(previous@ =~= Seq::new(i as nat, |j: int| 0u8));
        }
        ParticleStore { previous, current: seed }
    }

    pub fn previous(&self) -> (r: &Vec<u8>)
        ensures
            r@ == self@.0,
    {
        &self.previous
    }

    pub fn current(&self) -> (r: &Vec<u8>)
        ensures
            r@ == self@.1,
    {
        &self.current
    }

    /// First half of a step: the whole current buffer is copied into the
    /// previous one.
    pub fn begin_step(&mut self)
        requires
            old(self).wf(),
        ensures
            final(self)@ == (old(self)@.1, old(self)@.1),
            final(self).wf(),
    {
        let n = self.current.len();
        let mut i: usize = 0;
        while i < n
            invariant
                n == self.current@.len(),
                self.previous@.len() == n,
                self.current@ == old(self)@.1,
                i <= n,
                forall|j: int| 0 <= j < i ==> self.previous@[j] == self.current@[j],
            decreases n - i,
        {
            let b = self.current[i];
            self.previous.set(i, b);
            i = i + 1;
        }
        assert(self.previous@ =~= self.current@);
    }

    /// Second half of a step: the compute stage's output becomes current.
    pub fn finish_step(&mut self, computed: Vec<u8>)
        requires
            old(self).wf(),
            computed@.len() == old(self)@.1.len(),
        ensures
            final(self)@ == (old(self)@.0, computed@),
            final(self).wf(),
    {
        self.current = computed;
    }

    /// One whole step: copy, then take the compute stage's output.
    pub fn step(&mut self, computed: Vec<u8>)
        requires
            old(self).wf(),
            computed@.len() == old(self)@.1.len(),
        ensures
            final(self)@ == stepped(old(self)@, computed@),
            final(self).wf(),
    {
        self.begin_step();
        self.finish_step(computed);
    }
}

/// After the n-th step, the previous buffer holds exactly what the current
/// buffer held after step n - 1, before step n's compute stage ran.
pub proof fn lemma_previous_lags_one_step(s: (Seq<u8>, Seq<u8>), results: Seq<Seq<u8>>, n: int)
    requires
        1 <= n <= results.len(),
    ensures
        run_steps(s, results.take(n)).0 == run_steps(s, results.take(n - 1)).1,
{
    assert(results.take(n).drop_last() =~= results.take(n - 1));
}

} // verus!
