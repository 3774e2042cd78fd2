use vstd::prelude::*;
use vstd::string::*;
use crate::ast::ActivationFunction;

verus! {

/// The configuration of one layer of a network model.
#[derive(Debug, Clone, Copy, PartialEq, Eq, Structural)]
pub enum LayerConfig {
    Conv { filters: usize, kernel_size: usize, activation: ActivationFunction },
    Dense { units: usize, activation: ActivationFunction },
    Pooling { size: usize },
    Flatten,
    LSTM { units: usize },
}

/// The map that a list of (name, layer) entries stands for: a later entry
/// for a name replaces an earlier one.
pub open spec fn layers_map(s: Seq<(String, LayerConfig)>) -> Map<Seq<char>, LayerConfig>
    decreases s.len(),
{
    if s.len() == 0 {
        Map::empty()
    } else {
        layers_map(s.subrange(0, s.len() - 1)).insert(s[s.len() - 1].0@, s[s.len() - 1].1)
    }
}

/// Layers by name, and the order in which names were added.
pub struct NetworkModel {
    components: Vec<(String, LayerConfig)>,
    structure: Vec<String>,
}

/// `a → b → c`: names joined by arrows.
pub open spec fn arrow_joined(s: Seq<Seq<char>>) -> Seq<char>
    decreases s.len(),
{
    if s.len() == 0 {
        Seq::empty()
    } else if s.len() == 1 {
        s[0]
    } else {
        arrow_joined(s.subrange(0, s.len() - 1)) + " → "@ + s[s.len() - 1]
    }
}

impl NetworkModel {
    /// The layer configuration bound to each name.
    pub closed spec fn layers(&self) -> Map<Seq<char>, LayerConfig> {
        layers_map(self.components@)
    }

    /// The names in the order they were added, repeats included.
    pub closed spec fn order(&self) -> Seq<Seq<char>> {
        crate::ast::strings_view(self.structure@)
    }

    pub fn new() -> (r: NetworkModel)
        ensures
            r.layers() == Map::<Seq<char>, LayerConfig>::empty(),
            r.order() == Seq::<Seq<char>>::empty(),
    {
        let r = NetworkModel { components: Vec::new(), structure: Vec::new() };
        assert(r.order() =~= Seq::<Seq<char>>::empty());
        r
    }

    /// Binds `name` to `config` and appends `name` to the order.
    pub fn add_layer(&mut self, name: String, config: LayerConfig)
        ensures
            final(self).layers() == old(self).layers().insert(name@, config),
            final(self).order() == old(self).order().push(name@),
    {
        let name_copy = name.clone();
        self.components.push((name, config));
        self.structure.push(name_copy);
        proof {
            let s = self.components@;
            assert(s.subrange(0, s.len() - 1) == old(self).components@);
            assert(self.order() =~= old(self).order().push(name@));
        }
    }

    /// The names in order, joined by arrows.
    pub fn get_structure(&self) -> (r: String)
        ensures
            r@ == arrow_joined(self.order()),
    {
        let ghost v = self.order();
        let mut out = String::new();
        let mut i: usize = 0;
        while i < self.structure.len()
            invariant
                i <= self.structure.len(),
                v == crate::ast::strings_view(self.structure@),
                out@ == arrow_joined(v.subrange(0, i as int)),
            decreases self.structure.len() - i,
        {
            if i > 0 {
                out.append(" → ");
            }
            out.append(self.structure[i].as_str());
            proof {
                let next = v.subrange(0, i + 1);
                assert(next.subrange(0, i as int) == v.subrange(0, i as int));
                assert(v[i as int] == self.structure@[i as int]@);
                assert(out@ =~= arrow_joined(next));
            }
            i = i + 1;
        }
        assert(v.subrange(0, self.structure.len() as int) == v);
        out
    }
}

} // verus!
