//! Model configuration and the widths derived from it.

use crate::topology::{is_chained, param_total, ActivationType, LayerShape, Topology};
use vstd::prelude::*;

verus! {

/// The larger of two integers.
pub open spec fn max_int(a: int, b: int) -> int {
    if a >= b {
        a
    } else {
        b
    }
}

/// Configuration of a tiny recursive model; it fixes the network topology.
#[derive(Debug, Clone, Copy, PartialEq, Eq, Structural)]
pub struct TRMConfig {
    /// Number of ReLU layers of the shared network, ahead of its Tanh output layer.
    pub l_layers: usize,
    /// Outer (act) cycles of a forward pass.
    pub h_cycles: usize,
    /// Inner (think) cycles within each outer cycle.
    pub l_cycles: usize,
    /// Width of the hidden layers.
    pub hidden_dim: usize,
    /// Width of the latent state `z`.
    pub latent_dim: usize,
    /// Width of an input row `x`.
    pub input_dim: usize,
    /// Width of the answer `y`.
    pub output_dim: usize,
}

/// Why a configuration cannot define a model.
#[derive(Debug, Clone, Copy, PartialEq, Eq, Structural)]
pub enum ConfigError {
    /// A size or a cycle count is zero.
    NotPositive,
    /// A width or the parameter count does not fit in `usize`.
    TooLarge,
}

impl TRMConfig {
    /// Width of a think row: `x`, `y` and `z` side by side.
    pub open spec fn think_width(self) -> int {
        self.input_dim + self.output_dim + self.latent_dim
    }

    /// Width of an act row: `y` and `z` side by side.
    pub open spec fn act_width(self) -> int {
        self.output_dim + self.latent_dim
    }

    /// Input width of the shared network: the wider of the two rows.
    pub open spec fn input_width(self) -> int {
        max_int(self.think_width(), self.act_width())
    }

    /// Output width of the shared network: room for `z` and for `y`.
    pub open spec fn output_width(self) -> int {
        max_int(self.latent_dim as int, self.output_dim as int)
    }

    /// Every size and count of the configuration is positive.
    pub open spec fn is_positive(self) -> bool {
        &&& self.l_layers >= 1
        &&& self.h_cycles >= 1
        &&& self.l_cycles >= 1
        &&& self.hidden_dim >= 1
        &&& self.latent_dim >= 1
        &&& self.input_dim >= 1
        &&& self.output_dim >= 1
    }

    /// The row widths can be computed in `usize`.
    pub open spec fn widths_fit(self) -> bool {
        self.think_width() <= usize::MAX
    }

    /// Number of hidden-to-hidden layers between the first and the last layer.
    pub open spec fn inner_layers(self) -> nat {
        if self.l_layers >= 1 {
            (self.l_layers - 1) as nat
        } else {
            0
        }
    }

    /// Layers of the shared network: the wider of the two rows to the hidden
    /// width with ReLU, `l_layers - 1` hidden-to-hidden layers with ReLU, and
    /// the hidden width to the output width with Tanh.
    pub open spec fn plan(self) -> Seq<LayerShape> {
        seq![
            LayerShape {
                input_dim: self.input_width() as usize,
                output_dim: self.hidden_dim,
                activation: ActivationType::ReLU,
            },
        ] + Seq::new(
            self.inner_layers(),
            |_i: int|
                LayerShape {
                    input_dim: self.hidden_dim,
                    output_dim: self.hidden_dim,
                    activation: ActivationType::ReLU,
                },
        ) + seq![
            LayerShape {
                input_dim: self.hidden_dim,
                output_dim: self.output_width() as usize,
                activation: ActivationType::Tanh,
            },
        ]
    }

    /// A configuration from which a model can be built.
    pub open spec fn is_valid(self) -> bool {
        &&& self.is_positive()
        &&& self.widths_fit()
        &&& param_total(self.plan()) <= usize::MAX
    }

    /// The layer plan always chains.
    pub proof fn lemma_plan_chained(self)
        ensures
            is_chained(self.plan()),
            self.plan().len() == self.inner_layers() + 2,
    {
        let p = self.plan();
        assert forall|i: int| 0 <= i < p.len() - 1 implies #[trigger] p[i].output_dim
            == p[i + 1].input_dim by {
            assert(p[i].output_dim == self.hidden_dim);
            assert(p[i + 1].input_dim == self.hidden_dim);
        }
    }

    /// The layer shapes of the shared network, first to last.
    pub fn layer_plan(&self) -> (r: Vec<LayerShape>)
        requires
            self.widths_fit(),
        ensures
            r@ == self.plan(),
    {
        let mut layers: Vec<LayerShape> = Vec::new();
        layers.push(
            LayerShape::new(self.max_input_width(), self.hidden_dim, ActivationType::ReLU),
        );
        let mut k: usize = 1;
        while k < self.l_layers
            invariant
                1 <= k,
                k <= self.l_layers || (k == 1 && self.l_layers == 0),
                layers@ == self.plan().take(k as int),
            decreases self.l_layers - k,
        {
            proof {
                assert(self.plan()[k as int] == LayerShape {
                    input_dim: self.hidden_dim,
                    output_dim: self.hidden_dim,
                    activation: ActivationType::ReLU,
                });
                assert(self.plan().take(k + 1) =~= self.plan().take(k as int).push(
                    self.plan()[k as int],
                ));
            }
            layers.push(LayerShape::new(self.hidden_dim, self.hidden_dim, ActivationType::ReLU));
            k = k + 1;
        }
        proof {
            let n = self.inner_layers() + 1;
            assert(k == n);
            assert(self.plan() =~= self.plan().take(n as int).push(self.plan()[n as int]));
        }
        layers.push(
            LayerShape::new(self.hidden_dim, self.max_output_width(), ActivationType::Tanh),
        );
        layers
    }

    /// Topology of the model's shared network, or why the configuration
    /// cannot have one.
    pub fn topology(&self) -> (r: Result<Topology, ConfigError>)
        ensures
            r == Err::<Topology, ConfigError>(ConfigError::NotPositive) <==> !self.is_positive(),
            r == Err::<Topology, ConfigError>(ConfigError::TooLarge) <==> (self.is_positive()
                && !self.is_valid()),
            r is Ok <==> self.is_valid(),
            r matches Ok(t) ==> t@ == self.plan(),
    {
        if self.l_layers == 0 || self.h_cycles == 0 || self.l_cycles == 0 || self.hidden_dim == 0
            || self.latent_dim == 0 || self.input_dim == 0 || self.output_dim == 0 {
            return Err(ConfigError::NotPositive);
        }
        let fits = match self.input_dim.checked_add(self.output_dim) {
            Some(w) => w.checked_add(self.latent_dim).is_some(),
            None => false,
        };
        if !fits {
            return Err(ConfigError::TooLarge);
        }
        proof {
            self.lemma_plan_chained();
        }
        match Topology::new(self.layer_plan()) {
            Ok(t) => Ok(t),
            Err(_) => Err(ConfigError::TooLarge),
        }
    }

    /// Width of a think row.
    pub fn think_input_width(&self) -> (r: usize)
        requires
            self.widths_fit(),
        ensures
            r == self.think_width(),
    {
        self.input_dim + self.output_dim + self.latent_dim
    }

    /// Width of an act row.
    pub fn act_input_width(&self) -> (r: usize)
        requires
            self.widths_fit(),
        ensures
            r == self.act_width(),
    {
        self.output_dim + self.latent_dim
    }

    /// Input width of the shared network, derived once from the configuration.
    pub fn max_input_width(&self) -> (r: usize)
        requires
            self.widths_fit(),
        ensures
            r == self.input_width(),
            r == self.think_width(),
    {
        let think = self.think_input_width();
        let act = self.act_input_width();
        if think >= act {
            think
        } else {
            act
        }
    }

    /// Output width of the shared network, derived once from the configuration.
    pub fn max_output_width(&self) -> (r: usize)
        ensures
            r == self.output_width(),
    {
        if self.latent_dim >= self.output_dim {
            self.latent_dim
        } else {
            self.output_dim
        }
    }
}

impl Default for TRMConfig {
    fn default() -> (r: Self)
        ensures
            r == (TRMConfig {
                l_layers: 2,
                h_cycles: 3,
                l_cycles: 4,
                hidden_dim: 64,
                latent_dim: 64,
                input_dim: 10,
                output_dim: 10,
            }),
    {
        TRMConfig {
            l_layers: 2,
            h_cycles: 3,
            l_cycles: 4,
            hidden_dim: 64,
            latent_dim: 64,
            input_dim: 10,
            output_dim: 10,
        }
    }
}

} // verus!
