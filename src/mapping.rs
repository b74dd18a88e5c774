use vstd::prelude::*;

use crate::text::strs;

verus! {

pub struct TypeMapping {
    pub from: String,
    pub to: String,
}

/// The target name given to `name` by the first entry for it.
pub open spec fn lookup(entries: Seq<TypeMapping>, name: Seq<char>) -> Option<Seq<char>>
    decreases entries.len(),
{
    if entries.len() == 0 {
        None
    } else if entries[0].from@ == name {
        Some(entries[0].to@)
    } else {
        lookup(entries.drop_first(), name)
    }
}

pub open spec fn entry_names(entries: Seq<TypeMapping>) -> Seq<Seq<char>> {
    entries.map_values(|m: TypeMapping| m.from@)
}

/// A user rename table: origin type names to target type names.
pub struct TypeMappings {
    pub entries: Vec<TypeMapping>,
}

impl TypeMappings {
    pub open spec fn spec_get(&self, name: Seq<char>) -> Option<Seq<char>> {
        lookup(self.entries@, name)
    }

    pub fn new() -> (r: TypeMappings)
        ensures
            forall|k: Seq<char>| r.spec_get(k) is None,
    {
        TypeMappings { entries: Vec::new() }
    }

    /// Maps `from` to `to`, in place of any earlier mapping of `from`.
    pub fn insert(&mut self, from: String, to: String)
        ensures
            final(self).spec_get(from@) == Some(to@),
            forall|k: Seq<char>| k != from@ ==> final(self).spec_get(k) == old(self).spec_get(k),
    {
        let ghost pre = self.entries@;
        let ghost key = from@;
        let ghost target = to@;
        let mut i: usize = 0;
        while i < self.entries.len()
            invariant
                self.entries@ == pre,
                old(self).entries@ == pre,
                from@ == key,
                to@ == target,
                i <= pre.len(),
                forall|j: int| 0 <= j < i ==> pre[j].from@ != from@,
            decreases pre.len() - i,
        {
            if self.entries[i].from == from {
                self.entries.set(i, TypeMapping { from, to });
                proof {
                    assert(pre[i as int].from@ == key);
                    lemma_lookup_set(pre, i as int, self.entries@);
                    assert(forall|k: Seq<char>| k != key ==> lookup(self.entries@, k) == lookup(pre, k));
                }
                return;
            }
            i = i + 1;
        }
        self.entries.push(TypeMapping { from, to });
        proof {
            lemma_lookup_push(pre, self.entries@);
        }
    }

    pub fn get(&self, name: &String) -> (r: Option<&String>)
        ensures
            r matches Some(t) ==> self.spec_get(name@) == Some(t@),
            r is None ==> self.spec_get(name@) is None,
    {
        let mut i: usize = 0;
        proof {
            assert(self.entries@.subrange(0, self.entries@.len() as int) =~= self.entries@);
        }
        while i < self.entries.len()
            invariant
                i <= self.entries@.len(),
                lookup(self.entries@, name@) == lookup(
                    self.entries@.subrange(i as int, self.entries@.len() as int),
                    name@,
                ),
            decreases self.entries@.len() - i,
        {
            proof {
                let rest = self.entries@.subrange(i as int, self.entries@.len() as int);
                assert(rest.drop_first() =~= self.entries@.subrange(i + 1, self.entries@.len() as int));
            }
            if self.entries[i].from == *name {
                return Some(&self.entries[i].to);
            }
            i = i + 1;
        }
        None
    }

    /// The origin names that the table maps.
    pub fn keys(&self) -> (r: Vec<String>)
        ensures
            strs(r@) == entry_names(self.entries@),
    {
        let mut r: Vec<String> = Vec::new();
        let mut i: usize = 0;
        while i < self.entries.len()
            invariant
                i <= self.entries@.len(),
                strs(r@) == entry_names(self.entries@.take(i as int)),
            decreases self.entries@.len() - i,
        {
            let ghost prev = r@;
            r.push(self.entries[i].from.clone());
            proof {
                assert(strs(r@) =~= strs(prev).push(self.entries@[i as int].from@));
                assert(entry_names(self.entries@.take(i + 1)) =~= entry_names(self.entries@.take(i as int)).push(
                    self.entries@[i as int].from@,
                ));
            }
            i = i + 1;
        }
        proof {
            assert(self.entries@.take(self.entries@.len() as int) =~= self.entries@);
        }
        r
    }
}

proof fn lemma_lookup_set(pre: Seq<TypeMapping>, i: int, post: Seq<TypeMapping>)
    requires
        0 <= i < pre.len(),
        post.len() == pre.len(),
        forall|j: int| 0 <= j < pre.len() && j != i ==> post[j] == pre[j],
        post[i].from@ == pre[i].from@,
        forall|j: int| 0 <= j < i ==> pre[j].from@ != pre[i].from@,
    ensures
        lookup(post, pre[i].from@) == Some(post[i].to@),
        forall|k: Seq<char>| k != pre[i].from@ ==> lookup(post, k) == lookup(pre, k),
    decreases i,
{
    if i > 0 {
        lemma_lookup_set(pre.drop_first(), i - 1, post.drop_first());
        assert(post[0] == pre[0]);
        assert(pre.drop_first()[i - 1] == pre[i]);
        assert forall|k: Seq<char>| k != pre[i].from@ implies lookup(post, k) == lookup(pre, k) by {
            assert(pre.drop_first()[i - 1] == pre[i]);
            assert(lookup(post.drop_first(), k) == lookup(pre.drop_first(), k));
        }
    } else {
        assert(post.drop_first() =~= pre.drop_first());
    }
}

proof fn lemma_lookup_push(pre: Seq<TypeMapping>, post: Seq<TypeMapping>)
    requires
        post.len() == pre.len() + 1,
        forall|j: int| 0 <= j < pre.len() ==> post[j] == pre[j],
        forall|j: int| 0 <= j < pre.len() ==> pre[j].from@ != post[pre.len() as int].from@,
    ensures
        lookup(post, post[pre.len() as int].from@) == Some(post[pre.len() as int].to@),
        forall|k: Seq<char>| k != post[pre.len() as int].from@ ==> lookup(post, k) == lookup(pre, k),
    decreases pre.len(),
{
    let last = post[pre.len() as int];
    if pre.len() > 0 {
        lemma_lookup_push(pre.drop_first(), post.drop_first());
        assert(post[0] == pre[0]);
        assert(post.drop_first()[pre.len() - 1] == last);
        assert forall|k: Seq<char>| k != last.from@ implies lookup(post, k) == lookup(pre, k) by {
            assert(post.drop_first()[pre.len() - 1] == last);
            assert(lookup(post.drop_first(), k) == lookup(pre.drop_first(), k));
        }
    } else {
        assert forall|k: Seq<char>| k != last.from@ implies lookup(post, k) == lookup(pre, k) by {
            assert(post.drop_first().len() == 0);
            assert(lookup(post.drop_first(), k) is None);
        }
    }
}

} // verus!
