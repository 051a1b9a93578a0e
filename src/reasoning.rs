//! The recursive think/act schedule of a forward pass, and the packing of
//! its rows into the buffer of the shared network.
//!
//! The shared network itself is evaluated by the caller: a [`ForwardPass`]
//! says which step comes next and what rows to feed the network, and takes
//! the network's output back to update the latent state `z` or the answer `y`.

use crate::config::TRMConfig;
use crate::matrix::{filled_rows, pad_row, Matrix};
use vstd::arithmetic::div_mod::lemma_fundamental_div_mod_converse;
use vstd::prelude::*;

verus! {

/// Rows of a think step: `x`, `y` and `z` side by side, zero-filled to the
/// network's input width.
pub open spec fn think_rows<T>(
    config: TRMConfig,
    x: Seq<Seq<T>>,
    y: Seq<Seq<T>>,
    z: Seq<Seq<T>>,
    zero: T,
) -> Seq<Seq<T>> {
    Seq::new(x.len(), |i: int| pad_row(x[i] + y[i] + z[i], config.input_width() as nat, zero))
}

/// Rows of an act step: `y` and `z` side by side, zero-filled to the
/// network's input width.
pub open spec fn act_rows<T>(config: TRMConfig, y: Seq<Seq<T>>, z: Seq<Seq<T>>, zero: T) -> Seq<
    Seq<T>,
> {
    Seq::new(y.len(), |i: int| pad_row(y[i] + z[i], config.input_width() as nat, zero))
}

/// The first `k` entries of each row.
pub open spec fn leading_columns<T>(m: Seq<Seq<T>>, k: nat) -> Seq<Seq<T>> {
    Seq::new(m.len(), |i: int| m[i].take(k as int))
}

/// Network input of a think step.
pub fn think_input<T: Copy>(
    config: &TRMConfig,
    x: &Matrix<T>,
    y: &Matrix<T>,
    z: &Matrix<T>,
    zero: T,
) -> (r: Matrix<T>)
    requires
        config.widths_fit(),
        x.width() == config.input_dim,
        y.has_shape(x@.len(), config.output_dim as nat),
        z.has_shape(x@.len(), config.latent_dim as nat),
    ensures
        r@ == think_rows(*config, x@, y@, z@, zero),
        r.has_shape(x@.len(), config.input_width() as nat),
{
    let xy = x.concat_columns(y);
    let xyz = xy.concat_columns(z);
    let r = xyz.pad_columns(config.max_input_width(), zero);
    assert(r@ =~= think_rows(*config, x@, y@, z@, zero));
    r
}

/// Network input of an act step.
pub fn act_input<T: Copy>(config: &TRMConfig, y: &Matrix<T>, z: &Matrix<T>, zero: T) -> (r:
    Matrix<T>)
    requires
        config.widths_fit(),
        y.width() == config.output_dim,
        z.has_shape(y@.len(), config.latent_dim as nat),
    ensures
        r@ == act_rows(*config, y@, z@, zero),
        r.has_shape(y@.len(), config.input_width() as nat),
{
    let yz = y.concat_columns(z);
    let r = yz.pad_columns(config.max_input_width(), zero);
    assert(r@ =~= act_rows(*config, y@, z@, zero));
    r
}

/// The gradient of the loss with respect to the answer, zero-filled to the
/// network's output width; it drives the single update of the network.
pub fn pad_gradient<T: Copy>(config: &TRMConfig, grad_output: &Matrix<T>, zero: T) -> (r: Matrix<
    T,
>)
    requires
        grad_output.width() == config.output_dim,
    ensures
        r@ == Seq::new(
            grad_output@.len(),
            |i: int| pad_row(grad_output@[i], config.output_width() as nat, zero),
        ),
        r.has_shape(grad_output@.len(), config.output_width() as nat),
{
    grad_output.pad_columns(config.max_output_width(), zero)
}

/// What the shared network is run for next.
#[derive(Debug, Clone, Copy, PartialEq, Eq, Structural)]
pub enum Step {
    /// Refine the latent state `z` from `x`, `y` and `z`.
    Think,
    /// Refine the answer `y` from `y` and `z`.
    Act,
}

/// Step number `k` of a pass: each outer cycle is `l_cycles` think steps
/// followed by one act step.
pub open spec fn scheduled_step(config: TRMConfig, k: int) -> Step {
    if k % (config.l_cycles + 1) < config.l_cycles {
        Step::Think
    } else {
        Step::Act
    }
}

/// Number of network runs in a whole pass.
pub open spec fn pass_length(config: TRMConfig) -> int {
    config.h_cycles * (config.l_cycles + 1)
}

/// State of one forward pass: the answer `y`, the latent state `z`, and how
/// far the schedule has gone. Both `y` and `z` start at zero in every pass.
pub struct ForwardPass<T> {
    config: TRMConfig,
    batch: usize,
    zero: T,
    y: Matrix<T>,
    z: Matrix<T>,
    cycles_done: usize,
    thinks_done: usize,
}

impl<T> ForwardPass<T> {
    #[verifier::type_invariant]
    spec fn inv(self) -> bool {
        &&& self.config.widths_fit()
        &&& self.y.has_shape(self.batch as nat, self.config.output_dim as nat)
        &&& self.z.has_shape(self.batch as nat, self.config.latent_dim as nat)
        &&& self.cycles_done <= self.config.h_cycles
        &&& self.thinks_done <= self.config.l_cycles
        &&& self.cycles_done == self.config.h_cycles ==> self.thinks_done == 0
    }

    pub closed spec fn config(&self) -> TRMConfig {
        self.config
    }

    /// Rows of the batch.
    pub closed spec fn batch(&self) -> nat {
        self.batch as nat
    }

    /// The value that fills fresh state and padding.
    pub closed spec fn zero(&self) -> T {
        self.zero
    }

    /// The current answer `y`.
    pub closed spec fn answer_rows(&self) -> Seq<Seq<T>> {
        self.y@
    }

    /// The current latent state `z`.
    pub closed spec fn latent_rows(&self) -> Seq<Seq<T>> {
        self.z@
    }

    /// Outer cycles completed.
    pub closed spec fn cycles_done(&self) -> nat {
        self.cycles_done as nat
    }

    /// Think steps completed in the current outer cycle.
    pub closed spec fn thinks_done(&self) -> nat {
        self.thinks_done as nat
    }

    /// Network runs so far.
    pub open spec fn progress(&self) -> int {
        self.cycles_done() * (self.config().l_cycles + 1) + self.thinks_done()
    }

    /// The step that comes next, if the pass is not over.
    pub open spec fn pending(&self) -> Option<Step> {
        if self.cycles_done() >= self.config().h_cycles {
            None
        } else if self.thinks_done() < self.config().l_cycles {
            Some(Step::Think)
        } else {
            Some(Step::Act)
        }
    }

    /// Columns of the network output that the pending step keeps.
    pub open spec fn kept_width(&self) -> nat {
        if self.pending() == Some(Step::Think) {
            self.config().latent_dim as nat
        } else {
            self.config().output_dim as nat
        }
    }

    /// A pass that has not run the network yet: `y` and `z` are all `zero`.
    pub open spec fn is_fresh(&self, config: TRMConfig, batch: nat, zero: T) -> bool {
        &&& self.config() == config
        &&& self.batch() == batch
        &&& self.zero() == zero
        &&& self.answer_rows() == filled_rows(batch, config.output_dim as nat, zero)
        &&& self.latent_rows() == filled_rows(batch, config.latent_dim as nat, zero)
        &&& self.cycles_done() == 0
        &&& self.thinks_done() == 0
    }

    /// The bounds that every pass keeps.
    pub open spec fn is_consistent(&self) -> bool {
        &&& self.config().widths_fit()
        &&& self.answer_rows().len() == self.batch()
        &&& self.latent_rows().len() == self.batch()
        &&& self.cycles_done() <= self.config().h_cycles
        &&& self.thinks_done() <= self.config().l_cycles
        &&& self.cycles_done() == self.config().h_cycles ==> self.thinks_done() == 0
    }
}

impl<T: Copy> ForwardPass<T> {
    /// A pass over a batch of `batch` rows, with `y` and `z` set to `zero`.
    pub fn new(config: &TRMConfig, batch: usize, zero: T) -> (r: Self)
        requires
            config.widths_fit(),
        ensures
            r.is_fresh(*config, batch as nat, zero),
            r.is_consistent(),
    {
        let y = Matrix::filled(batch, config.output_dim, zero);
        let z = Matrix::filled(batch, config.latent_dim, zero);
        ForwardPass { config: *config, batch, zero, y, z, cycles_done: 0, thinks_done: 0 }
    }

    /// The step that comes next; `None` once all `h_cycles` outer cycles ran.
    pub fn next_step(&self) -> (r: Option<Step>)
        ensures
            r == self.pending(),
            self.is_consistent(),
    {
        proof {
            use_type_invariant(self);
        }
        if self.cycles_done >= self.config.h_cycles {
            None
        } else if self.thinks_done < self.config.l_cycles {
            Some(Step::Think)
        } else {
            Some(Step::Act)
        }
    }

    /// The rows to run through the network for the pending step, given the
    /// pass's input `x`.
    pub fn network_input(&self, x: &Matrix<T>) -> (r: Matrix<T>)
        requires
            self.pending() is Some,
            x@.len() == self.batch(),
            x.width() == self.config().input_dim,
        ensures
            self.pending() == Some(Step::Think) ==> r@ == think_rows(
                self.config(),
                x@,
                self.answer_rows(),
                self.latent_rows(),
                self.zero(),
            ),
            self.pending() == Some(Step::Act) ==> r@ == act_rows(
                self.config(),
                self.answer_rows(),
                self.latent_rows(),
                self.zero(),
            ),
            r.has_shape(self.batch(), self.config().input_width() as nat),
    {
        proof {
            use_type_invariant(self);
        }
        if self.thinks_done < self.config.l_cycles {
            think_input(&self.config, x, &self.y, &self.z, self.zero)
        } else {
            act_input(&self.config, &self.y, &self.z, self.zero)
        }
    }

    /// Takes the network's output for the pending step: a think step keeps
    /// its first `latent_dim` columns as `z`, an act step its first
    /// `output_dim` columns as `y`.
    pub fn absorb(&mut self, output: &Matrix<T>)
        requires
            old(self).pending() is Some,
            output@.len() == old(self).batch(),
            output.width() >= old(self).kept_width(),
        ensures
            final(self).config() == old(self).config(),
            final(self).batch() == old(self).batch(),
            final(self).zero() == old(self).zero(),
            final(self).progress() == old(self).progress() + 1,
            old(self).pending() == Some(Step::Think) ==> {
                &&& final(self).latent_rows() == leading_columns(
                    output@,
                    old(self).config().latent_dim as nat,
                )
                &&& final(self).answer_rows() == old(self).answer_rows()
                &&& final(self).cycles_done() == old(self).cycles_done()
                &&& final(self).thinks_done() == old(self).thinks_done() + 1
            },
            old(self).pending() == Some(Step::Act) ==> {
                &&& final(self).answer_rows() == leading_columns(
                    output@,
                    old(self).config().output_dim as nat,
                )
                &&& final(self).latent_rows() == old(self).latent_rows()
                &&& final(self).cycles_done() == old(self).cycles_done() + 1
                &&& final(self).thinks_done() == 0
            },
            final(self).is_consistent(),
    {
        proof {
            use_type_invariant(&*self);
        }
        let l_cycles = self.config.l_cycles;
        if self.thinks_done < l_cycles {
            let z = output.take_columns(self.config.latent_dim);
            self.z = z;
            self.thinks_done = self.thinks_done + 1;
        } else {
            let y = output.take_columns(self.config.output_dim);
            self.y = y;
            self.thinks_done = 0;
            self.cycles_done = self.cycles_done + 1;
            assert(self.cycles_done * (l_cycles + 1) == (self.cycles_done - 1) * (l_cycles + 1) + (
            l_cycles + 1)) by (nonlinear_arith);
        }
        proof {
            use_type_invariant(&*self);
        }
    }

    /// The current answer `y`: after the last act step, the pass's output.
    /// It has one row per input row and `output_dim` columns, whatever the
    /// cycle counts.
    pub fn answer(&self) -> (r: &Matrix<T>)
        ensures
            r@ == self.answer_rows(),
            r.has_shape(self.batch(), self.config().output_dim as nat),
    {
        proof {
            use_type_invariant(self);
        }
        &self.y
    }

    /// The current latent state `z`.
    pub fn latent(&self) -> (r: &Matrix<T>)
        ensures
            r@ == self.latent_rows(),
            r.has_shape(self.batch(), self.config().latent_dim as nat),
    {
        proof {
            use_type_invariant(self);
        }
        &self.z
    }
}

/// The steps of a pass follow the schedule: network run number `k` is a
/// think step unless `k` is the last of its outer cycle, and the pass ends
/// after exactly `h_cycles * (l_cycles + 1)` runs.
pub proof fn lemma_schedule<T>(pass: ForwardPass<T>)
    requires
        pass.is_consistent(),
    ensures
        pass.progress() <= pass_length(pass.config()),
        pass.pending() == (if pass.progress() < pass_length(pass.config()) {
            Some(scheduled_step(pass.config(), pass.progress()))
        } else {
            None
        }),
{
    let c = pass.cycles_done() as int;
    let t = pass.thinks_done() as int;
    let h = pass.config().h_cycles as int;
    let l = pass.config().l_cycles as int;
    let k = pass.progress();
    assert(k == c * (l + 1) + t);
    lemma_fundamental_div_mod_converse(k, l + 1, c, t);
    if c < h {
        assert(c * (l + 1) + t < h * (l + 1)) by (nonlinear_arith)
            requires
                c < h,
                0 <= t <= l,
        ;
    } else {
        assert(c == h);
        assert(t == 0);
    }
    assert(c * (l + 1) <= h * (l + 1)) by (nonlinear_arith)
        requires
            c <= h,
            0 <= l,
    ;
}

/// Every pass begins in the same state: nothing of an earlier pass carries
/// over into the next one, so equal inputs and equal network runs give equal
/// answers.
pub proof fn lemma_fresh_passes_agree<T>(
    a: ForwardPass<T>,
    b: ForwardPass<T>,
    config: TRMConfig,
    batch: nat,
    zero: T,
)
    requires
        a.is_fresh(config, batch, zero),
        b.is_fresh(config, batch, zero),
    ensures
        a.answer_rows() == b.answer_rows(),
        a.latent_rows() == b.latent_rows(),
        a.pending() == b.pending(),
        a.progress() == 0,
        b.progress() == 0,
{
}

} // verus!
