//! The store of loaded shaders and textures: each is loaded once and found
//! again under the name it was loaded as.

use vstd::prelude::*;
use vstd::string::StringExecFns;

verus! {

/// A compiled shader program, by its handle.
#[derive(Clone, Copy, Debug, PartialEq, Eq, Structural)]
pub struct Shader {
    pub id: u32,
}

/// An uploaded texture: its handle and its size in pixels.
#[derive(Clone, Copy, Debug, PartialEq, Eq, Structural)]
pub struct Texture2D {
    pub id: u32,
    pub width: u32,
    pub height: u32,
}

/// Values filed under names, each name at most once.
pub struct KeyedStore<T> {
    keys: Vec<String>,
    values: Vec<T>,
}

impl<T: Copy> KeyedStore<T> {
    /// Every name has its value, and no name occurs twice.
    pub closed spec fn wf(&self) -> bool {
        &&& self.keys@.len() == self.values@.len()
        &&& forall|i: int, j: int|
            0 <= i < j < self.keys@.len() ==> self.keys@[i]@ != self.keys@[j]@
    }

    spec fn holds_at(&self, i: int, name: Seq<char>) -> bool {
        0 <= i < self.keys@.len() && self.keys@[i]@ == name
    }

    spec fn place_of(&self, name: Seq<char>) -> int {
        choose|i: int| self.holds_at(i, name)
    }

    /// The stored values by name.
    pub closed spec fn view(&self) -> Map<Seq<char>, T> {
        Map::new(
            |name: Seq<char>| exists|i: int| self.holds_at(i, name),
            |name: Seq<char>| self.values@[self.place_of(name)],
        )
    }

    /// The stored values in the order in which they were filed.
    pub closed spec fn in_order(&self) -> Seq<T> {
        self.values@
    }

    /// An empty store.
    pub fn new() -> (store: KeyedStore<T>)
        ensures
            store.wf(),
            store@ == Map::<Seq<char>, T>::empty(),
            store.in_order() == Seq::<T>::empty(),
    {
        let store = KeyedStore { keys: Vec::new(), values: Vec::new() };
        assert(store@ =~= Map::<Seq<char>, T>::empty());
        store
    }

    fn find(&self, name: &String) -> (found: Option<usize>)
        requires
            self.wf(),
        ensures
            match found {
                Some(i) => self.holds_at(i as int, name@),
                None => forall|i: int| !self.holds_at(i, name@),
            },
    {
        let mut i: usize = 0;
        while i < self.keys.len()
            invariant
                i <= self.keys@.len(),
                forall|j: int| 0 <= j < i ==> self.keys@[j]@ != name@,
            decreases self.keys@.len() - i,
        {
            if self.keys[i] == *name {
                return Some(i);
            }
            i += 1;
        }
        None
    }

    /// The value filed under `name`, if any.
    pub fn get(&self, name: &str) -> (value: Option<T>)
        requires
            self.wf(),
        ensures
            value == (if self@.contains_key(name@) {
                Some(self@[name@])
            } else {
                None
            }),
    {
        let key = String::from_str(name);
        match self.find(&key) {
            Some(i) => {
                proof {
                    let p = self.place_of(name@);
                    assert(self.holds_at(p, name@));
                    assert(p == i);
                }
                Some(self.values[i])
            },
            None => None,
        }
    }

    /// Files `value` under `name` unless the name is taken, and answers the
    /// value that the name stands for afterwards.
    pub fn get_or_insert(&mut self, name: &str, value: T) -> (kept: T)
        requires
            old(self).wf(),
        ensures
            final(self).wf(),
            old(self)@.contains_key(name@) ==> kept == old(self)@[name@] && final(self)@ == old(
                self,
            )@ && final(self).in_order() == old(self).in_order(),
            !old(self)@.contains_key(name@) ==> kept == value && final(self)@ == old(self)@.insert(
                name@,
                value,
            ) && final(self).in_order() == old(self).in_order().push(value),
    {
        match self.get(name) {
            Some(v) => v,
            None => {
                let key = String::from_str(name);
                self.keys.push(key);
                self.values.push(value);
                proof {
                    let n = old(self).keys@.len() as int;
                    assert(self.holds_at(n, name@));
                    assert forall|i: int| 0 <= i < n implies old(self).keys@[i]@ != name@ by {
                        if old(self).keys@[i]@ == name@ {
                            assert(old(self).holds_at(i, name@));
                            assert(old(self)@.contains_key(name@));
                        }
                    }
                    assert forall|k: Seq<char>| #[trigger]
                        self@.contains_key(k) == old(self)@.insert(name@, value).contains_key(k) by {
                        if k != name@ {
                            if self@.contains_key(k) {
                                let i = choose|i: int| self.holds_at(i, k);
                                assert(old(self).holds_at(i, k));
                            }
                            if old(self)@.contains_key(k) {
                                let i = choose|i: int| old(self).holds_at(i, k);
                                assert(self.holds_at(i, k));
                            }
                        }
                    }
                    assert forall|k: Seq<char>| #[trigger] self@.contains_key(k) implies self@[k]
                        == old(self)@.insert(name@, value)[k] by {
                        let p = self.place_of(k);
                        assert(self.holds_at(p, k));
                        if k != name@ {
                            assert(old(self).holds_at(p, k));
                            let q = old(self).place_of(k);
                            assert(old(self).holds_at(q, k));
                            assert(p == q);
                        } else {
                            assert(p == n);
                        }
                    }
                    assert(self@ =~= old(self)@.insert(name@, value));
                }
                value
            },
        }
    }

    /// Empties the store and hands back what it held, in the order of filing.
    pub fn clear(&mut self) -> (released: Vec<T>)
        requires
            old(self).wf(),
        ensures
            final(self).wf(),
            final(self)@ == Map::<Seq<char>, T>::empty(),
            final(self).in_order() == Seq::<T>::empty(),
            released@ == old(self).in_order(),
    {
        let mut released: Vec<T> = Vec::new();
        let mut i: usize = 0;
        while i < self.values.len()
            invariant
                i <= self.values@.len(),
                self.values@ == old(self).values@,
                released@ == self.values@.take(i as int),
            decreases self.values@.len() - i,
        {
            released.push(self.values[i]);
            proof {
                assert(self.values@.take(i + 1) =~= self.values@.take(i as int).push(
                    self.values@[i as int],
                ));
            }
            i += 1;
        }
        proof {
            assert(self.values@.take(self.values@.len() as int) =~= self.values@);
        }
        self.keys = Vec::new();
        self.values = Vec::new();
        assert(self@ =~= Map::<Seq<char>, T>::empty());
        released
    }
}

/// What `name` stands for in `stored`, if anything.
pub open spec fn found<T>(stored: Map<Seq<char>, T>, name: Seq<char>) -> Option<T> {
    if stored.contains_key(name) {
        Some(stored[name])
    } else {
        None
    }
}

/// The store after `name` was asked for and `handle` came back: a name that
/// was known leaves the store as it is, a new name is added with its handle.
pub open spec fn after_load<T>(stored: Map<Seq<char>, T>, name: Seq<char>, handle: T) -> Map<
    Seq<char>,
    T,
> {
    if stored.contains_key(name) {
        stored
    } else {
        stored.insert(name, handle)
    }
}

/// The order of loading after `name` was asked for and `handle` came back.
pub open spec fn order_after_load<T>(
    stored: Map<Seq<char>, T>,
    order: Seq<T>,
    name: Seq<char>,
    handle: T,
) -> Seq<T> {
    if stored.contains_key(name) {
        order
    } else {
        order.push(handle)
    }
}

/// The shaders and textures loaded so far, by name.
pub struct ResourceManager {
    pub shaders: KeyedStore<Shader>,
    pub textures: KeyedStore<Texture2D>,
}

/// What `clear` hands back for disposal.
pub struct Released {
    pub shaders: Vec<Shader>,
    pub textures: Vec<Texture2D>,
}

impl ResourceManager {
    /// Both stores are in order.
    pub open spec fn wf(&self) -> bool {
        self.shaders.wf() && self.textures.wf()
    }

    /// A manager that holds nothing.
    pub fn new() -> (manager: ResourceManager)
        ensures
            manager.wf(),
            manager.shaders@ == Map::<Seq<char>, Shader>::empty(),
            manager.textures@ == Map::<Seq<char>, Texture2D>::empty(),
            manager.shaders.in_order() == Seq::<Shader>::empty(),
            manager.textures.in_order() == Seq::<Texture2D>::empty(),
    {
        ResourceManager { shaders: KeyedStore::new(), textures: KeyedStore::new() }
    }

    /// The shader called `name`. One that was loaded before is handed back
    /// as it is, and `compile` is not run; else `compile` runs once and
    /// what it builds is kept under `name`.
    pub fn load_shader<F: FnOnce() -> Shader>(&mut self, name: &str, compile: F) -> (shader: Shader)
        requires
            old(self).wf(),
            !old(self).shaders@.contains_key(name@) ==> compile.requires(()),
        ensures
            final(self).wf(),
            final(self).textures == old(self).textures,
            old(self).shaders@.contains_key(name@) ==> shader == old(self).shaders@[name@],
            !old(self).shaders@.contains_key(name@) ==> compile.ensures((), shader),
            final(self).shaders@ == after_load(old(self).shaders@, name@, shader),
            final(self).shaders.in_order() == order_after_load(
                old(self).shaders@,
                old(self).shaders.in_order(),
                name@,
                shader,
            ),
    {
        match self.shaders.get(name) {
            Some(shader) => shader,
            None => {
                let shader = compile();
                self.shaders.get_or_insert(name, shader)
            },
        }
    }

    /// The texture called `name`. One that was loaded before is handed back
    /// as it is, and `upload` is not run; else `upload` runs once and what it
    /// creates is kept under `name`.
    pub fn load_texture<F: FnOnce() -> Texture2D>(&mut self, name: &str, upload: F) -> (texture:
        Texture2D)
        requires
            old(self).wf(),
            !old(self).textures@.contains_key(name@) ==> upload.requires(()),
        ensures
            final(self).wf(),
            final(self).shaders == old(self).shaders,
            old(self).textures@.contains_key(name@) ==> texture == old(self).textures@[name@],
            !old(self).textures@.contains_key(name@) ==> upload.ensures((), texture),
            final(self).textures@ == after_load(old(self).textures@, name@, texture),
            final(self).textures.in_order() == order_after_load(
                old(self).textures@,
                old(self).textures.in_order(),
                name@,
                texture,
            ),
    {
        match self.textures.get(name) {
            Some(texture) => texture,
            None => {
                let texture = upload();
                self.textures.get_or_insert(name, texture)
            },
        }
    }

    /// The shader that was loaded as `name`, if any.
    pub fn get_shader(&self, name: &str) -> (shader: Option<Shader>)
        requires
            self.wf(),
        ensures
            shader == found(self.shaders@, name@),
    {
        self.shaders.get(name)
    }

    /// The texture that was loaded as `name`, if any.
    pub fn get_texture(&self, name: &str) -> (texture: Option<Texture2D>)
        requires
            self.wf(),
        ensures
            texture == found(self.textures@, name@),
    {
        self.textures.get(name)
    }

    /// Forgets every shader and texture and hands them back, in the order of
    /// loading, so that their handles can be disposed of.
    pub fn clear(&mut self) -> (released: Released)
        requires
            old(self).wf(),
        ensures
            final(self).wf(),
            final(self).shaders@ == Map::<Seq<char>, Shader>::empty(),
            final(self).textures@ == Map::<Seq<char>, Texture2D>::empty(),
            final(self).shaders.in_order() == Seq::<Shader>::empty(),
            final(self).textures.in_order() == Seq::<Texture2D>::empty(),
            released.shaders@ == old(self).shaders.in_order(),
            released.textures@ == old(self).textures.in_order(),
    {
        let shaders = self.shaders.clear();
        let textures = self.textures.clear();
        Released { shaders, textures }
    }
}

/// Loading under one name twice gives the same handle both times: after a
/// load of `name` that returned `first`, the name stands for `first`, and a
/// second load neither changes the store nor returns anything else, whatever
/// handle `second` a fresh load would have produced.
pub proof fn lemma_load_twice_same_handle<T>(
    stored: Map<Seq<char>, T>,
    name: Seq<char>,
    first: T,
    second: T,
)
    requires
        stored.contains_key(name) ==> first == stored[name],
    ensures
        found(after_load(stored, name, first), name) == Some(first),
        after_load(after_load(stored, name, first), name, second) == after_load(
            stored,
            name,
            first,
        ),
{
}

/// Once everything is cleared, no name is found.
pub proof fn lemma_nothing_found_after_clear<T>(name: Seq<char>)
    ensures
        found(Map::<Seq<char>, T>::empty(), name) == None::<T>,
{
}

} // verus!
