//! Layer shapes and the topology of the shared network.

use vstd::prelude::*;

verus! {

/// Elementwise nonlinearity that follows a layer's affine map.
#[derive(Debug, Clone, Copy, PartialEq, Eq, Structural)]
pub enum ActivationType {
    /// `max(0, v)`; its derivative is 1 for `v > 0` and 0 elsewhere.
    ReLU,
    /// `tanh(v)`; its derivative is `1 - tanh(v)^2`.
    Tanh,
    /// `v`; its derivative is 1.
    Identity,
}

/// Shape of one layer: a weight matrix of `output_dim` rows and `input_dim`
/// columns, a bias of `output_dim` entries, and an activation.
#[derive(Debug, Clone, Copy, PartialEq, Eq, Structural)]
pub struct LayerShape {
    pub input_dim: usize,
    pub output_dim: usize,
    pub activation: ActivationType,
}

impl LayerShape {
    /// Weight entries plus bias entries.
    pub open spec fn param_count(self) -> int {
        self.output_dim * self.input_dim + self.output_dim
    }

    pub fn new(input_dim: usize, output_dim: usize, activation: ActivationType) -> (r: Self)
        ensures
            r == (LayerShape { input_dim, output_dim, activation }),
    {
        LayerShape { input_dim, output_dim, activation }
    }
}

/// Number of parameters of a stack of layers.
pub open spec fn param_total(layers: Seq<LayerShape>) -> int
    decreases layers.len(),
{
    if layers.len() == 0 {
        0
    } else {
        param_total(layers.drop_last()) + layers.last().param_count()
    }
}

/// Each layer's output width is the next layer's input width.
pub open spec fn is_chained(layers: Seq<LayerShape>) -> bool {
    forall|i: int|
        0 <= i < layers.len() - 1 ==> #[trigger] layers[i].output_dim == layers[i + 1].input_dim
}

/// Width of a row after it has gone through `layers` in order, starting at
/// width `cols`; `None` where a layer does not take the width it is given.
pub open spec fn threaded_width(layers: Seq<LayerShape>, cols: int) -> Option<int>
    decreases layers.len(),
{
    if layers.len() == 0 {
        Some(cols)
    } else if layers[0].input_dim != cols {
        None
    } else {
        threaded_width(layers.drop_first(), layers[0].output_dim as int)
    }
}

/// A batch sent through a chained stack of layers ends at the last layer's
/// output width, whatever its values, provided its rows have the first
/// layer's input width; rows of any other width are refused.
pub proof fn lemma_forward_shape(layers: Seq<LayerShape>, cols: int)
    requires
        layers.len() >= 1,
        is_chained(layers),
    ensures
        threaded_width(layers, cols) == (if cols == layers[0].input_dim {
            Some(layers.last().output_dim as int)
        } else {
            None
        }),
    decreases layers.len(),
{
    if layers.len() > 1 {
        let rest = layers.drop_first();
        assert forall|i: int| 0 <= i < rest.len() - 1 implies #[trigger] rest[i].output_dim
            == rest[i + 1].input_dim by {
            assert(layers[i + 1].output_dim == layers[i + 2].input_dim);
        }
        lemma_forward_shape(rest, layers[0].output_dim as int);
        assert(layers[0].output_dim == layers[1].input_dim);
        assert(rest[0] == layers[1]);
        assert(rest.last() == layers.last());
    } else {
        assert(layers.drop_first().len() == 0);
        assert(layers.last() == layers[0]);
        assert(threaded_width(layers.drop_first(), layers[0].output_dim as int) == Some(
            layers[0].output_dim as int,
        ));
    }
}

/// Why a sequence of layer shapes does not form a network.
#[derive(Debug, Clone, Copy, PartialEq, Eq, Structural)]
pub enum TopologyError {
    /// There is no layer.
    Empty,
    /// Layer `index` does not output the width that layer `index + 1` takes.
    Mismatch { index: usize },
    /// The parameter count does not fit in `usize`.
    TooLarge,
}

/// A nonempty stack of layer shapes, composed strictly in sequence.
#[derive(Debug)]
pub struct Topology {
    layers: Vec<LayerShape>,
}

impl View for Topology {
    type V = Seq<LayerShape>;

    closed spec fn view(&self) -> Seq<LayerShape> {
        self.layers@
    }
}

/// The stacks that a `Topology` can hold.
pub open spec fn is_topology(layers: Seq<LayerShape>) -> bool {
    &&& layers.len() >= 1
    &&& is_chained(layers)
    &&& param_total(layers) <= usize::MAX
}

/// The first layer whose output width differs from its successor's input width.
pub open spec fn is_first_mismatch(layers: Seq<LayerShape>, index: int) -> bool {
    &&& 0 <= index < layers.len() - 1
    &&& layers[index].output_dim != layers[index + 1].input_dim
    &&& forall|i: int| 0 <= i < index ==> #[trigger] layers[i].output_dim == layers[i + 1].input_dim
}

proof fn lemma_param_total_nonneg(layers: Seq<LayerShape>)
    ensures
        param_total(layers) >= 0,
    decreases layers.len(),
{
    if layers.len() > 0 {
        lemma_param_total_nonneg(layers.drop_last());
        let l = layers.last();
        assert(l.output_dim * l.input_dim >= 0) by (nonlinear_arith);
    }
}

/// Total parameters of a prefix never exceed those of the whole stack.
proof fn lemma_param_total_prefix(layers: Seq<LayerShape>, n: int)
    requires
        0 <= n <= layers.len(),
    ensures
        0 <= param_total(layers.take(n)) <= param_total(layers),
    decreases layers.len(),
{
    if n == layers.len() {
        assert(layers.take(n) =~= layers);
        lemma_param_total_nonneg(layers);
    } else {
        lemma_param_total_prefix(layers.drop_last(), n);
        assert(layers.drop_last().take(n) =~= layers.take(n));
        let l = layers.last();
        assert(l.output_dim * l.input_dim >= 0) by (nonlinear_arith);
    }
}

impl Clone for Topology {
    fn clone(&self) -> (r: Self)
        ensures
            r@ == self@,
    {
        proof {
            use_type_invariant(self);
        }
        let mut layers: Vec<LayerShape> = Vec::new();
        let mut i: usize = 0;
        while i < self.layers.len()
            invariant
                0 <= i <= self.layers@.len(),
                layers@ == self.layers@.take(i as int),
            decreases self.layers@.len() - i,
        {
            layers.push(self.layers[i]);
            i = i + 1;
            assert(layers@ =~= self.layers@.take(i as int));
        }
        assert(layers@ =~= self.layers@);
        Topology { layers }
    }
}

impl Topology {
    #[verifier::type_invariant]
    spec fn inv(self) -> bool {
        is_topology(self.layers@)
    }

    /// Checks that `layers` chain and that their parameter count fits.
    pub fn new(layers: Vec<LayerShape>) -> (r: Result<Topology, TopologyError>)
        ensures
            layers@.len() == 0 <==> r == Err::<Topology, TopologyError>(TopologyError::Empty),
            forall|index: usize|
                r == Err::<Topology, TopologyError>(TopologyError::Mismatch { index })
                    <==> is_first_mismatch(layers@, index as int),
            r == Err::<Topology, TopologyError>(TopologyError::TooLarge) <==> (layers@.len() >= 1
                && is_chained(layers@) && param_total(layers@) > usize::MAX),
            r is Ok <==> is_topology(layers@),
            r matches Ok(t) ==> t@ == layers@,
    {
        let n = layers.len();
        if n == 0 {
            return Err(TopologyError::Empty);
        }
        let mut i: usize = 0;
        while i + 1 < n
            invariant
                n == layers@.len(),
                n >= 1,
                0 <= i < n,
                forall|k: int|
                    0 <= k < i ==> #[trigger] layers@[k].output_dim == layers@[k + 1].input_dim,
            decreases n - i,
        {
            if layers[i].output_dim != layers[i + 1].input_dim {
                return Err(TopologyError::Mismatch { index: i });
            }
            i = i + 1;
        }
        assert(is_chained(layers@));
        let mut total: usize = 0;
        let mut j: usize = 0;
        while j < n
            invariant
                n == layers@.len(),
                0 <= j <= n,
                is_chained(layers@),
                total == param_total(layers@.take(j as int)),
            decreases n - j,
        {
            proof {
                assert(layers@.take(j + 1).drop_last() =~= layers@.take(j as int));
                lemma_param_total_prefix(layers@, j + 1);
            }
            let l = layers[j];
            let count = match l.output_dim.checked_mul(l.input_dim) {
                Some(w) => w.checked_add(l.output_dim),
                None => None,
            };
            let next = match count {
                Some(c) => total.checked_add(c),
                None => None,
            };
            match next {
                Some(t) => {
                    total = t;
                },
                None => {
                    proof {
                        assert(layers@.take(j + 1).last() == l);
                        assert(l.output_dim * l.input_dim >= 0) by (nonlinear_arith);
                    }
                    return Err(TopologyError::TooLarge);
                },
            }
            j = j + 1;
        }
        assert(layers@.take(n as int) =~= layers@);
        Ok(Topology { layers })
    }

    /// The layer shapes, first to last.
    pub fn layers(&self) -> (r: &Vec<LayerShape>)
        ensures
            r@ == self@,
            is_topology(self@),
    {
        proof {
            use_type_invariant(self);
        }
        &self.layers
    }

    /// Width of the rows the first layer takes.
    pub fn input_width(&self) -> (r: usize)
        ensures
            r == self@[0].input_dim,
    {
        proof {
            use_type_invariant(self);
        }
        self.layers[0].input_dim
    }

    /// Width of the rows the last layer gives.
    pub fn output_width(&self) -> (r: usize)
        ensures
            r == self@.last().output_dim,
    {
        proof {
            use_type_invariant(self);
        }
        self.layers[self.layers.len() - 1].output_dim
    }

    /// Sum over the layers of their weight and bias entries.
    pub fn num_parameters(&self) -> (r: usize)
        ensures
            r == param_total(self@),
    {
        proof {
            use_type_invariant(self);
        }
        let n = self.layers.len();
        let mut total: usize = 0;
        let mut j: usize = 0;
        while j < n
            invariant
                n == self.layers@.len(),
                is_topology(self.layers@),
                0 <= j <= n,
                total == param_total(self.layers@.take(j as int)),
            decreases n - j,
        {
            proof {
                assert(self.layers@.take(j + 1).drop_last() =~= self.layers@.take(j as int));
                lemma_param_total_prefix(self.layers@, j + 1);
                let l = self.layers@[j as int];
                assert(self.layers@.take(j + 1).last() == l);
                assert(l.output_dim * l.input_dim >= 0) by (nonlinear_arith);
            }
            let l = self.layers[j];
            total = total + (l.output_dim * l.input_dim + l.output_dim);
            j = j + 1;
        }
        assert(self.layers@.take(n as int) =~= self.layers@);
        total
    }
    /// Shape of the result of running a batch of `rows` rows of width `cols`
    /// through every layer in order: `None` where the first layer does not
    /// take rows of that width.
    pub fn forward_shape(&self, rows: usize, cols: usize) -> (r: Option<(usize, usize)>)
        ensures
            r == (if cols == self@[0].input_dim {
                Some((rows, self@.last().output_dim))
            } else {
                None::<(usize, usize)>
            }),
            r == (match threaded_width(self@, cols as int) {
                Some(w) => Some((rows, w as usize)),
                None => None,
            }),
    {
        proof {
            use_type_invariant(self);
            lemma_forward_shape(self@, cols as int);
        }
        let n = self.layers.len();
        let mut width = cols;
        let mut i: usize = 0;
        assert(self@.skip(0) =~= self@);
        while i < n
            invariant
                n == self@.len(),
                is_topology(self@),
                0 <= i <= n,
                i == 0 ==> width == cols,
                i > 0 ==> width == self@[i - 1].output_dim,
                threaded_width(self@, cols as int) == threaded_width(
                    self@.skip(i as int),
                    width as int,
                ),
            decreases n - i,
        {
            assert(self@.skip(i as int)[0] == self@[i as int]);
            assert(self@.skip(i as int).drop_first() =~= self@.skip(i + 1));
            if self.layers[i].input_dim != width {
                assert(i == 0) by {
                    if i > 0 {
                        assert(self@[i - 1].output_dim == self@[(i - 1) + 1].input_dim);
                    }
                }
                return None;
            }
            width = self.layers[i].output_dim;
            i = i + 1;
        }
        assert(self@.skip(n as int).len() == 0);
        Some((rows, width))
    }
}

} // verus!
