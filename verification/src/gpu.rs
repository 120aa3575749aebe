//! GPU backend identification, the built-in shaders, and the by-name
//! caches that shader modules and render pipelines are kept in.
use crate::json::str_eq;
use crate::text::{push_str, to_owned_string};
use vstd::prelude::*;

verus! {

/// Available GPU backends.
#[derive(Debug, Clone, Copy, PartialEq, Eq, Structural)]
pub enum Backend {
    Vulkan,
    Metal,
    DirectX12,
    OpenGl,
    WebGpu,
}

impl Backend {
    /// Human-readable backend name.
    pub fn name(&self) -> (s: &'static str)
        ensures
            s@ == (match *self {
                Backend::Vulkan => "Vulkan"@,
                Backend::Metal => "Metal"@,
                Backend::DirectX12 => "DirectX 12"@,
                Backend::OpenGl => "OpenGL"@,
                Backend::WebGpu => "WebGPU"@,
            }),
    {
        match self {
            Backend::Vulkan => "Vulkan",
            Backend::Metal => "Metal",
            Backend::DirectX12 => "DirectX 12",
            Backend::OpenGl => "OpenGL",
            Backend::WebGpu => "WebGPU",
        }
    }
}

/// Shaders that ship with the renderer.
#[derive(Debug, Clone, Copy, PartialEq, Eq, Structural)]
pub enum BuiltinShader {
    Candle,
    Grid,
    Volume,
    Line,
}

/// The built-in shader of that name, if there is one.
pub fn builtin_shader(name: &str) -> (r: Option<BuiltinShader>)
    ensures
        r == (if name@ == "candle"@ {
            Some(BuiltinShader::Candle)
        } else if name@ == "grid"@ {
            Some(BuiltinShader::Grid)
        } else if name@ == "volume"@ {
            Some(BuiltinShader::Volume)
        } else if name@ == "line"@ {
            Some(BuiltinShader::Line)
        } else {
            None
        }),
{
    if str_eq(name, "candle") {
        Some(BuiltinShader::Candle)
    } else if str_eq(name, "grid") {
        Some(BuiltinShader::Grid)
    } else if str_eq(name, "volume") {
        Some(BuiltinShader::Volume)
    } else if str_eq(name, "line") {
        Some(BuiltinShader::Line)
    } else {
        None
    }
}

/// Debug label of a GPU object: `prefix` and the object's name.
pub fn gpu_label(prefix: &str, name: &str) -> (r: String)
    ensures
        r@ == prefix@ + name@,
{
    let mut r = to_owned_string(prefix);
    push_str(&mut r, name);
    r
}

/// The map an entry list stands for: a later entry for a name overrides
/// an earlier one.
pub open spec fn entries_map<V>(s: Seq<(String, V)>) -> Map<Seq<char>, V>
    decreases s.len(),
{
    if s.len() == 0 {
        Map::empty()
    } else {
        entries_map(s.drop_last()).insert(s.last().0@, s.last().1)
    }
}

/// If no later entry has the name of entry `i`, the map holds entry
/// `i`'s value for it.
proof fn lemma_entries_map_last<V>(s: Seq<(String, V)>, i: int)
    requires
        0 <= i < s.len(),
        forall|j: int| i < j < s.len() ==> (#[trigger] s[j]).0@ != s[i].0@,
    ensures
        entries_map(s).dom().contains(s[i].0@),
        entries_map(s)[s[i].0@] == s[i].1,
    decreases s.len(),
{
    if i < s.len() - 1 {
        let t = s.drop_last();
        assert forall|j: int| i < j < t.len() implies (#[trigger] t[j]).0@ != t[i].0@ by {
            assert(t[j] == s[j]);
        }
        lemma_entries_map_last(t, i);
        assert(s.last() == s[s.len() - 1]);
    }
}

/// A name no entry carries is not in the map.
proof fn lemma_entries_map_absent<V>(s: Seq<(String, V)>, k: Seq<char>)
    requires
        forall|j: int| 0 <= j < s.len() ==> (#[trigger] s[j]).0@ != k,
    ensures
        !entries_map(s).dom().contains(k),
    decreases s.len(),
{
    if s.len() > 0 {
        let t = s.drop_last();
        assert forall|j: int| 0 <= j < t.len() implies (#[trigger] t[j]).0@ != k by {
            assert(t[j] == s[j]);
        }
        lemma_entries_map_absent(t, k);
        assert(s.last() == s[s.len() - 1]);
    }
}

/// No two entries carry the same name.
pub open spec fn distinct_names<V>(s: Seq<(String, V)>) -> bool {
    forall|i: int, j: int| 0 <= i < j < s.len() ==> (#[trigger] s[i]).0@ != (#[trigger] s[j]).0@
}

/// Every entry's name is in the map.
proof fn lemma_entries_map_present<V>(s: Seq<(String, V)>, i: int)
    requires
        0 <= i < s.len(),
    ensures
        entries_map(s).dom().contains(s[i].0@),
    decreases s.len(),
{
    if i < s.len() - 1 {
        lemma_entries_map_present(s.drop_last(), i);
        assert(s.drop_last()[i] == s[i]);
    }
}

/// With distinct names the map has one key per entry.
proof fn lemma_entries_map_len<V>(s: Seq<(String, V)>)
    requires
        distinct_names(s),
    ensures
        entries_map(s).dom().finite(),
        entries_map(s).dom().len() == s.len(),
    decreases s.len(),
{
    if s.len() > 0 {
        let t = s.drop_last();
        assert(distinct_names(t)) by {
            assert forall|i: int, j: int| 0 <= i < j < t.len() implies (#[trigger] t[i]).0@ != (#[trigger] t[j]).0@ by {
                assert(t[i] == s[i] && t[j] == s[j]);
            }
        }
        lemma_entries_map_len(t);
        assert forall|j: int| 0 <= j < t.len() implies (#[trigger] t[j]).0@ != s.last().0@ by {
            assert(t[j] == s[j]);
            assert(s.last() == s[s.len() - 1]);
        }
        lemma_entries_map_absent(t, s.last().0@);
    }
}

/// Values cached by name (compiled shader modules, render pipelines).
pub struct NamedCache<V> {
    entries: Vec<(String, V)>,
}

impl<V> NamedCache<V> {
    #[verifier::type_invariant]
    spec fn names_unique(self) -> bool {
        distinct_names(self.entries@)
    }

    /// The cached values by name.
    pub closed spec fn view(&self) -> Map<Seq<char>, V> {
        entries_map(self.entries@)
    }

    /// An empty cache.
    pub fn new() -> (c: Self)
        ensures
            c@ == Map::<Seq<char>, V>::empty(),
    {
        NamedCache { entries: Vec::new() }
    }

    fn find(&self, name: &str) -> (r: Option<usize>)
        ensures
            match r {
                Some(i) => i < self.entries@.len() && self.entries@[i as int].0@ == name@
                    && self@.dom().contains(name@) && self@[name@] == self.entries@[i as int].1,
                None => !self@.dom().contains(name@),
            },
    {
        let n = self.entries.len();
        let mut i: usize = n;
        while i > 0
            invariant
                n == self.entries@.len(),
                i <= n,
                forall|j: int| i <= j < n ==> (#[trigger] self.entries@[j]).0@ != name@,
            decreases i,
        {
            if str_eq(self.entries[i - 1].0.as_str(), name) {
                proof {
                    lemma_entries_map_last(self.entries@, i - 1);
                }
                return Some(i - 1);
            }
            i = i - 1;
        }
        proof {
            lemma_entries_map_absent(self.entries@, name@);
        }
        None
    }

    /// Whether a value is cached under `name`.
    pub fn contains(&self, name: &str) -> (b: bool)
        ensures
            b == self@.dom().contains(name@),
    {
        self.find(name).is_some()
    }

    /// The value cached under `name`, if any.
    pub fn get(&self, name: &str) -> (r: Option<&V>)
        ensures
            match r {
                Some(v) => self@.dom().contains(name@) && self@[name@] == *v,
                None => !self@.dom().contains(name@),
            },
    {
        match self.find(name) {
            Some(i) => Some(&self.entries[i].1),
            None => None,
        }
    }

    /// Cache `value` under `name` unless a value is cached there already,
    /// which is then kept; returns whether `value` was stored.
    pub fn insert_if_absent(&mut self, name: &str, value: V) -> (stored: bool)
        ensures
            stored == !old(self)@.dom().contains(name@),
            final(self)@ == (if stored { old(self)@.insert(name@, value) } else { old(self)@ }),
    {
        proof {
            use_type_invariant(&*self);
        }
        if self.contains(name) {
            return false;
        }
        let ghost before = self.entries@;
        proof {
            assert forall|j: int| 0 <= j < before.len() implies (#[trigger] before[j]).0@ != name@ by {
                if before[j].0@ == name@ {
                    lemma_entries_map_present(before, j);
                }
            }
        }
        let mut entries = Vec::new();
        std::mem::swap(&mut entries, &mut self.entries);
        entries.push((to_owned_string(name), value));
        proof {
            assert(entries@.drop_last() =~= before);
            assert(distinct_names(entries@)) by {
                assert forall|i: int, j: int| 0 <= i < j < entries@.len() implies (#[trigger] entries@[i]).0@
                    != (#[trigger] entries@[j]).0@ by {
                    if j == before.len() {
                        assert(entries@[i] == before[i]);
                    } else {
                        assert(entries@[i] == before[i] && entries@[j] == before[j]);
                    }
                }
            }
        }
        self.entries = entries;
        true
    }

    /// Drop the value cached under `name`, if any.
    pub fn evict(&mut self, name: &str)
        ensures
            final(self)@ == old(self)@.remove(name@),
    {
        proof {
            use_type_invariant(&*self);
        }
        let ghost s0 = self.entries@;
        let mut kept: Vec<(String, V)> = Vec::new();
        let mut rest: Vec<(String, V)> = Vec::new();
        std::mem::swap(&mut rest, &mut self.entries);
        let ghost r0 = rest@;
        let n = rest.len();
        let mut i: usize = 0;
        while i < n
            invariant
                n == r0.len(),
                rest@ == r0.skip(i as int),
                i <= n,
                distinct_names(r0),
                distinct_names(kept@),
                forall|a: int| 0 <= a < kept@.len() ==> exists|j: int| 0 <= j < i && (#[trigger] kept@[a]).0@ == r0[j].0@,
                entries_map(kept@) == entries_map(r0.take(i as int)).remove(name@),
            decreases n - i,
        {
            let e = rest.remove(0);
            let ghost m = entries_map(r0.take(i as int));
            proof {
                assert(e == r0[i as int]);
                assert(r0.take(i + 1).drop_last() =~= r0.take(i as int));
                assert(r0.take(i + 1).last() == r0[i as int]);
            }
            if !str_eq(e.0.as_str(), name) {
                let ghost kv = kept@;
                let ghost ek = e.0@;
                let ghost ev = e.1;
                kept.push(e);
                proof {
                    assert forall|a: int| 0 <= a < kept@.len() implies exists|j: int| 0 <= j < i + 1 && (#[trigger] kept@[a]).0@ == r0[j].0@ by {
                        if a < kv.len() {
                            assert(kept@[a] == kv[a]);
                        } else {
                            assert(kept@[a].0@ == r0[i as int].0@);
                        }
                    }
                    assert forall|a: int, b: int| 0 <= a < b < kept@.len() implies (#[trigger] kept@[a]).0@
                        != (#[trigger] kept@[b]).0@ by {
                        if b == kv.len() {
                            assert(kept@[a] == kv[a]);
                            let j = choose|j: int| 0 <= j < i && kv[a].0@ == r0[j].0@;
                            assert(r0[j].0@ != r0[i as int].0@);
                        } else {
                            assert(kept@[a] == kv[a] && kept@[b] == kv[b]);
                        }
                    }
                    assert(kept@.drop_last() =~= kv);
                    assert(entries_map(kept@) =~= m.insert(ek, ev).remove(name@));
                }
            } else {
                proof {
                    assert(entries_map(r0.take(i + 1)).remove(name@) =~= m.remove(name@));
                }
            }
            i = i + 1;
        }
        proof {
            assert(r0.take(n as int) =~= r0);
            assert(r0 == s0);
        }
        self.entries = kept;
    }

    /// Number of cached values.
    pub fn len(&self) -> (n: usize)
        ensures
            self@.dom().finite(),
            n == self@.dom().len(),
    {
        proof {
            use_type_invariant(self);
            lemma_entries_map_len(self.entries@);
        }
        self.entries.len()
    }

    /// Whether nothing is cached.
    pub fn is_empty(&self) -> (b: bool)
        ensures
            b == (self@.dom().len() == 0),
    {
        self.len() == 0
    }

    /// Drop every cached value.
    pub fn clear(&mut self)
        ensures
            final(self)@ == Map::<Seq<char>, V>::empty(),
    {
        self.entries = Vec::new();
    }
}

} // verus!
