use vstd::prelude::*;

use crate::generate_ast::{LiteralsAst, Val};

verus! {

/// The bindings of one scope, as a map from names to values.
pub open spec fn frame_map(f: Seq<(String, LiteralsAst)>) -> Map<Seq<char>, Val>
    decreases f.len(),
{
    if f.len() == 0 {
        Map::empty()
    } else {
        frame_map(f.drop_last()).insert(f.last().0@, f.last().1@)
    }
}

/// Index of the last binding of `n` in `f`, or -1.
pub open spec fn last_index(f: Seq<(String, LiteralsAst)>, n: Seq<char>) -> int
    decreases f.len(),
{
    if f.len() == 0 {
        -1
    } else if f.last().0@ == n {
        f.len() - 1
    } else {
        last_index(f.drop_last(), n)
    }
}

proof fn lemma_last_index(f: Seq<(String, LiteralsAst)>, n: Seq<char>)
    ensures
        -1 <= last_index(f, n) < f.len(),
        last_index(f, n) >= 0 ==> f[last_index(f, n)].0@ == n && frame_map(f).contains_key(n)
            && frame_map(f)[n] == f[last_index(f, n)].1@,
        last_index(f, n) < 0 ==> !frame_map(f).contains_key(n),
        forall|j: int| last_index(f, n) < j < f.len() ==> f[j].0@ != n,
    decreases f.len(),
{
    if f.len() > 0 {
        lemma_last_index(f.drop_last(), n);
        assert(forall|j: int| 0 <= j < f.len() - 1 ==> f.drop_last()[j] == f[j]);
    }
}

proof fn lemma_update_last(f: Seq<(String, LiteralsAst)>, i: int, b: (String, LiteralsAst))
    requires
        0 <= i < f.len(),
        forall|j: int| i < j < f.len() ==> f[j].0@ != f[i].0@,
        b.0@ == f[i].0@,
    ensures
        frame_map(f.update(i, b)) == frame_map(f).insert(b.0@, b.1@),
    decreases f.len(),
{
    let g = f.update(i, b);
    if i == f.len() - 1 {
        assert(g.drop_last() =~= f.drop_last());
    } else {
        assert(g.drop_last() =~= f.drop_last().update(i, b));
        lemma_update_last(f.drop_last(), i, b);
    }
    assert(frame_map(g) =~= frame_map(f).insert(b.0@, b.1@));
}

/// Position of the innermost of the first `k` frames that binds `n`, or -1.
pub open spec fn innermost(frames: Seq<Map<Seq<char>, Val>>, n: Seq<char>, k: int) -> int
    decreases k,
{
    if k <= 0 {
        -1
    } else if frames[k - 1].contains_key(n) {
        k - 1
    } else {
        innermost(frames, n, k - 1)
    }
}

pub proof fn lemma_innermost(frames: Seq<Map<Seq<char>, Val>>, n: Seq<char>, k: int)
    requires
        0 <= k <= frames.len(),
    ensures
        -1 <= innermost(frames, n, k) < k,
        innermost(frames, n, k) >= 0 ==> frames[innermost(frames, n, k)].contains_key(n),
    decreases k,
{
    if k > 0 {
        lemma_innermost(frames, n, k - 1);
    }
}

/// The value that `n` denotes: its binding in the innermost frame that has one.
pub open spec fn lookup(frames: Seq<Map<Seq<char>, Val>>, n: Seq<char>) -> Option<Val> {
    let j = innermost(frames, n, frames.len() as int);
    if j >= 0 {
        Some(frames[j][n])
    } else {
        None
    }
}

/// The frames after assigning `v` to `n`: the innermost frame that binds `n`
/// is changed; `None` where no frame binds it.
pub open spec fn assigned(frames: Seq<Map<Seq<char>, Val>>, n: Seq<char>, v: Val) -> Option<
    Seq<Map<Seq<char>, Val>>,
> {
    let j = innermost(frames, n, frames.len() as int);
    if j >= 0 {
        Some(frames.update(j, frames[j].insert(n, v)))
    } else {
        None
    }
}

/// The frames after declaring `n` with value `v` in the innermost frame.
pub open spec fn defined(frames: Seq<Map<Seq<char>, Val>>, n: Seq<char>, v: Val) -> Seq<
    Map<Seq<char>, Val>,
> {
    if frames.len() == 0 {
        seq![Map::empty().insert(n, v)]
    } else {
        frames.update(frames.len() - 1, frames.last().insert(n, v))
    }
}

/// A chain of scopes. The frames are held outermost first: the first is the
/// global scope, the last the innermost one; each frame's enclosing scope is
/// the one before it.
#[derive(Debug)]
pub struct Environment {
    frames: Vec<Vec<(String, LiteralsAst)>>,
}

impl View for Environment {
    type V = Seq<Map<Seq<char>, Val>>;

    closed spec fn view(&self) -> Seq<Map<Seq<char>, Val>> {
        Seq::new(self.frames@.len(), |i: int| frame_map(self.frames@[i]@))
    }
}

impl Environment {
    /// How many scopes are open.
    pub fn depth(&self) -> (r: usize)
        ensures
            r == self@.len(),
    {
        self.frames.len()
    }

    /// A fresh environment with an empty global scope.
    pub fn new() -> (r: Self)
        ensures
            r@ == seq![Map::<Seq<char>, Val>::empty()],
    {
        let r = Environment { frames: vec![Vec::new()] };
        assert(r@ =~= seq![Map::<Seq<char>, Val>::empty()]);
        r
    }

    /// Opens an inner scope with no bindings.
    pub fn push_scope(&mut self)
        ensures
            final(self)@ == old(self)@.push(Map::empty()),
    {
        self.frames.push(Vec::new());
        assert(final(self)@ =~= old(self)@.push(Map::empty()));
    }

    /// Closes the innermost scope, dropping its bindings. The global scope
    /// stays.
    pub fn pop_scope(&mut self)
        ensures
            old(self)@.len() > 1 ==> final(self)@ == old(self)@.drop_last(),
            old(self)@.len() <= 1 ==> final(self)@ == old(self)@,
    {
        if self.frames.len() > 1 {
            self.frames.pop();
        }
        assert(old(self)@.len() > 1 ==> final(self)@ =~= old(self)@.drop_last());
        assert(old(self)@.len() <= 1 ==> final(self)@ =~= old(self)@);
    }

    /// Binds `name` to `value` in the innermost scope, replacing a binding
    /// of the same name there.
    pub fn define(&mut self, name: String, value: LiteralsAst)
        ensures
            final(self)@ == defined(old(self)@, name@, value@),
    {
        if self.frames.len() == 0 {
            self.frames.push(Vec::new());
        }
        let ghost start = self@;
        assert(start.len() > 0);
        let mut frame = self.frames.pop().unwrap();
        let ghost f0 = frame@;
        let found = find_in_frame(&frame, &name);
        let ghost n = name@;
        let ghost v = value@;
        match found {
            Some(i) => {
                proof {
                    lemma_last_index(f0, n);
                    lemma_update_last(f0, i as int, (name, value));
                }
                frame.set(i, (name, value));
            },
            None => {
                proof {
                    lemma_last_index(f0, n);
                    assert(frame@.push((name, value)).drop_last() =~= f0);
                }
                frame.push((name, value));
            },
        }
        assert(frame_map(frame@) == frame_map(f0).insert(n, v));
        self.frames.push(frame);
        assert(final(self)@ =~= defined(old(self)@, n, v));
    }

    /// Index of the innermost frame that binds `name`.
    fn find_frame(&self, name: &String) -> (r: Option<usize>)
        ensures
            r is Some <==> innermost(self@, name@, self@.len() as int) >= 0,
            r is Some ==> r->0 == innermost(self@, name@, self@.len() as int),
            r is Some ==> r->0 < self.frames@.len(),
            self@.len() == self.frames@.len(),
    {
        proof {
            lemma_innermost(self@, name@, self@.len() as int);
        }
        let mut k = self.frames.len();
        while k > 0
            invariant
                k <= self.frames@.len(),
                self@.len() == self.frames@.len(),
                innermost(self@, name@, self@.len() as int) == innermost(self@, name@, k as int),
            decreases k,
        {
            let ghost f = self.frames@[k - 1]@;
            let found = find_in_frame(&self.frames[k - 1], name);
            proof {
                lemma_last_index(f, name@);
            }
            if found.is_some() {
                return Some(k - 1);
            }
            k = k - 1;
        }
        None
    }

    /// The value of `name` in the innermost scope that binds it.
    pub fn get(&self, name: &String) -> (r: Option<LiteralsAst>)
        ensures
            match r {
                Some(v) => lookup(self@, name@) == Some(v@),
                None => lookup(self@, name@) is None,
            },
    {
        match self.find_frame(name) {
            Some(k) => {
                let ghost f = self.frames@[k as int]@;
                let i = find_in_frame(&self.frames[k], name);
                proof {
                    lemma_innermost(self@, name@, self@.len() as int);
                    assert(self@[k as int] == frame_map(f));
                    lemma_last_index(f, name@);
                }
                match i {
                    Some(i) => Some(self.frames[k][i].1.clone()),
                    None => None,
                }
            },
            None => None,
        }
    }

    /// Replaces the value of `name` in the innermost scope that binds it;
    /// `false`, with nothing changed, where no scope binds it.
    pub fn assign(&mut self, name: &String, value: LiteralsAst) -> (r: bool)
        ensures
            r == assigned(old(self)@, name@, value@) is Some,
            r ==> final(self)@ == assigned(old(self)@, name@, value@)->0,
            !r ==> final(self)@ == old(self)@,
    {
        match self.find_frame(name) {
            Some(k) => {
                proof {
                    lemma_innermost(self@, name@, self@.len() as int);
                    assert(self@[k as int] == frame_map(self.frames@[k as int]@));
                }
                let mut frame = self.frames.remove(k);
                let ghost f0 = frame@;
                let i = find_in_frame(&frame, name);
                proof {
                    lemma_last_index(f0, name@);
                }
                match i {
                    Some(i) => {
                        let ghost v = value@;
                        let b = (name.clone(), value);
                        proof {
                            lemma_update_last(f0, i as int, b);
                        }
                        frame.set(i, b);
                        self.frames.insert(k, frame);
                        assert(final(self)@ =~= assigned(old(self)@, name@, v)->0);
                        true
                    },
                    None => {
                        // The frame that `find_frame` found binds the name.
                        assert(false);
                        self.frames.insert(k, frame);
                        false
                    },
                }
            },
            None => false,
        }
    }
}

/// Index of the last binding of `name` in `frame`.
fn find_in_frame(frame: &Vec<(String, LiteralsAst)>, name: &String) -> (r: Option<usize>)
    ensures
        r is Some <==> last_index(frame@, name@) >= 0,
        r is Some ==> r->0 == last_index(frame@, name@),
{
    let mut k = frame.len();
    assert(frame@.subrange(0, k as int) =~= frame@);
    while k > 0
        invariant
            k <= frame@.len(),
            last_index(frame@, name@) == last_index(frame@.subrange(0, k as int), name@),
        decreases k,
    {
        let ghost s = frame@.subrange(0, k as int);
        assert(s.drop_last() =~= frame@.subrange(0, k - 1));
        if frame[k - 1].0.eq(name) {
            return Some(k - 1);
        }
        k = k - 1;
    }
    None
}

} // verus!
