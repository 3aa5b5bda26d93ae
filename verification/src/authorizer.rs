use vstd::prelude::*;
use crate::strutil::str_eq;

verus! {

/// Where the path component starting at `i` ends: the index of the next
/// `/`, or the end of the path.
pub open spec fn comp_end(s: Seq<char>, i: int) -> int
    decreases s.len() - i,
{
    if i >= s.len() {
        s.len() as int
    } else if s[i] == '/' {
        i
    } else {
        comp_end(s, i + 1)
    }
}

/// `comp_end` stays within the path, moves strictly forward off a
/// non-separator, and everything before it is free of separators.
pub proof fn lemma_comp_end(s: Seq<char>, i: int)
    requires
        0 <= i <= s.len(),
    ensures
        i <= comp_end(s, i) <= s.len(),
        comp_end(s, i) < s.len() ==> s[comp_end(s, i)] == '/',
        forall|j: int| i <= j < comp_end(s, i) ==> s[j] != '/',
        i < s.len() && s[i] != '/' ==> comp_end(s, i) > i,
    decreases s.len() - i,
{
    if i < s.len() && s[i] != '/' {
        lemma_comp_end(s, i + 1);
    }
}

/// The non-empty components of a path from position `i` on, split on
/// `/`.
pub open spec fn components_from(s: Seq<char>, i: int) -> Seq<Seq<char>>
    decreases s.len() - i,
    when 0 <= i
    via components_from_decreases
{
    if i >= s.len() {
        Seq::empty()
    } else if s[i] == '/' {
        components_from(s, i + 1)
    } else {
        seq![s.subrange(i, comp_end(s, i))] + components_from(s, comp_end(s, i))
    }
}

#[via_fn]
proof fn components_from_decreases(s: Seq<char>, i: int) {
    if 0 <= i < s.len() && s[i] != '/' {
        lemma_comp_end(s, i);
    }
}

/// The non-empty components of a path, split on `/`.
pub open spec fn components(s: Seq<char>) -> Seq<Seq<char>> {
    components_from(s, 0)
}

/// The accumulated prefix that the first components of a path form:
/// each component is appended behind one `/`.
pub open spec fn assemble(cs: Seq<Seq<char>>) -> Seq<char>
    decreases cs.len(),
{
    if cs.len() == 0 {
        Seq::empty()
    } else {
        assemble(cs.drop_last()) + seq!['/'] + cs.last()
    }
}

/// One protected prefix passes: either the table does not protect it,
/// or the caller holds at least one of the roles the table allows
/// there.
pub open spec fn gate_passes(
    table: Map<Seq<char>, Set<Seq<char>>>,
    roles: Set<Seq<char>>,
    prefix: Seq<char>,
) -> bool {
    table.dom().contains(prefix) ==> exists|x: Seq<char>|
        roles.contains(x) && table[prefix].contains(x)
}

/// The authorization decision: a caller with this role set may reach
/// this path exactly when every accumulated prefix of the path —
/// including the empty one — passes its gate. A prefix without a table
/// entry imposes no constraint, so in particular the bare root is
/// always unprotected.
pub open spec fn is_permitted(
    roles: Set<Seq<char>>,
    path: Seq<char>,
    table: Map<Seq<char>, Set<Seq<char>>>,
) -> bool {
    forall|k: int|
        0 <= k <= components(path).len() ==> #[trigger] gate_passes(
            table,
            roles,
            assemble(components(path).take(k)),
        )
}

/// One protected prefix and the roles allowed to pass it.
pub struct PathRule {
    pub prefix: String,
    pub roles: Vec<String>,
}

/// The table of protected path prefixes: which roles may pass each
/// protected prefix. Prefixes are unique.
pub struct ProtectedPathTable {
    pub entries: Vec<PathRule>,
}

impl ProtectedPathTable {
    /// No two entries protect the same prefix.
    pub open spec fn wf(self) -> bool {
        forall|i: int, j: int|
            #![trigger self.entries@[i], self.entries@[j]]
            0 <= i < self.entries@.len() && 0 <= j < self.entries@.len() && i != j
                ==> self.entries@[i].prefix@ != self.entries@[j].prefix@
    }

    /// Some entry protects this prefix.
    pub open spec fn has_entry(self, k: Seq<char>) -> bool {
        exists|i: int| 0 <= i < self.entries@.len() && (#[trigger] self.entries@[i]).prefix@ == k
    }

    /// The index of the entry protecting this prefix (unique under
    /// `wf`).
    pub open spec fn entry_index(self, k: Seq<char>) -> int {
        choose|i: int| 0 <= i < self.entries@.len() && (#[trigger] self.entries@[i]).prefix@ == k
    }

    /// The table as a map from protected prefix to allowed role set.
    pub open spec fn as_map(self) -> Map<Seq<char>, Set<Seq<char>>> {
        Map::new(
            |k: Seq<char>| self.has_entry(k),
            |k: Seq<char>| self.entries@[self.entry_index(k)].roles.deep_view().to_set(),
        )
    }

    /// An empty table: nothing is protected.
    pub fn new() -> (r: ProtectedPathTable)
        ensures
            r.wf(),
            r.entries@.len() == 0,
            r.as_map() == Map::<Seq<char>, Set<Seq<char>>>::empty(),
    {
        let r = ProtectedPathTable { entries: Vec::new() };
        proof {
            assert(r.as_map() =~= Map::<Seq<char>, Set<Seq<char>>>::empty());
        }
        r
    }

    /// Protect a prefix not yet in the table with a set of roles.
    pub fn protect(&mut self, prefix: String, roles: Vec<String>)
        requires
            old(self).wf(),
            !old(self).has_entry(prefix@),
        ensures
            final(self).wf(),
            final(self).as_map() == old(self).as_map().insert(
                prefix@,
                roles.deep_view().to_set(),
            ),
    {
        let ghost p = prefix@;
        let ghost rs = roles.deep_view().to_set();
        self.entries.push(PathRule { prefix, roles });
        proof {
            let s = self.entries@;
            let olds = old(self).entries@;
            assert forall|i: int, j: int|
                #![trigger s[i], s[j]]
                0 <= i < s.len() && 0 <= j < s.len() && i != j implies s[i].prefix@
                != s[j].prefix@ by {
                if i < s.len() - 1 && j < s.len() - 1 {
                    assert(s[i] == olds[i] && s[j] == olds[j]);
                } else if i == s.len() - 1 {
                    assert(s[j] == olds[j]);
                    assert(old(self).has_entry(s[j].prefix@) || s[j].prefix@ != p);
                } else {
                    assert(s[i] == olds[i]);
                    assert(old(self).has_entry(s[i].prefix@) || s[i].prefix@ != p);
                }
            }
            assert forall|k: Seq<char>| true implies #[trigger] self.as_map().dom().contains(k)
                == old(self).as_map().insert(p, rs).dom().contains(k) by {
                if k == p {
                    assert(s[s.len() - 1].prefix@ == p);
                    assert(self.has_entry(p));
                } else {
                    if self.has_entry(k) {
                        let i = self.entry_index(k);
                        assert(0 <= i < s.len() && s[i].prefix@ == k);
                        assert(i != s.len() - 1);
                        assert(olds[i].prefix@ == k);
                        assert(old(self).has_entry(k));
                    }
                    if old(self).has_entry(k) {
                        let i = old(self).entry_index(k);
                        assert(0 <= i < olds.len() && olds[i].prefix@ == k);
                        assert(s[i].prefix@ == k);
                        assert(self.has_entry(k));
                    }
                }
            }
            assert forall|k: Seq<char>| #[trigger] self.as_map().dom().contains(k) implies
                self.as_map()[k] == old(self).as_map().insert(p, rs)[k] by {
                let i = self.entry_index(k);
                assert(0 <= i < s.len() && s[i].prefix@ == k);
                if k == p {
                    assert(i == s.len() - 1);
                    assert(s[i].roles.deep_view().to_set() == rs);
                } else {
                    assert(i != s.len() - 1);
                    assert(olds[i].prefix@ == k);
                    let m = old(self).entry_index(k);
                    assert(0 <= m < olds.len() && olds[m].prefix@ == k);
                    assert(m == i);
                    assert(s[i] == olds[i]);
                }
            }
            assert(self.as_map() =~= old(self).as_map().insert(p, rs));
        }
    }

    /// The entry protecting this prefix, if the table holds one.
    fn lookup_idx(&self, key: &str) -> (r: Option<usize>)
        requires
            self.wf(),
        ensures
            match r {
                Some(i) => i < self.entries@.len() && self.as_map().dom().contains(key@)
                    && self.as_map()[key@] == self.entries@[i as int].roles.deep_view().to_set(),
                None => !self.as_map().dom().contains(key@),
            },
    {
        let n = self.entries.len();
        let mut i: usize = 0;
        while i < n
            invariant
                self.wf(),
                n == self.entries@.len(),
                i <= n,
                forall|j: int| 0 <= j < i ==> (#[trigger] self.entries@[j]).prefix@ != key@,
            decreases n - i,
        {
            if str_eq(self.entries[i].prefix.as_str(), key) {
                proof {
                    assert(self.entries@[i as int].prefix@ == key@);
                    let k = self.entry_index(key@);
                    assert(0 <= k < self.entries@.len() && self.entries@[k].prefix@ == key@);
                    assert(k == i);
                }
                return Some(i);
            }
            i = i + 1;
        }
        None
    }
}

/// Does the caller hold at least one of the allowed roles?
fn any_role_allowed(roles: &Vec<String>, allowed: &Vec<String>) -> (r: bool)
    ensures
        r == exists|x: Seq<char>|
            roles.deep_view().to_set().contains(x) && allowed.deep_view().to_set().contains(x),
{
    let n = roles.len();
    let mut i: usize = 0;
    while i < n
        invariant
            n == roles@.len(),
            i <= n,
            forall|j: int|
                0 <= j < i ==> !allowed.deep_view().to_set().contains(
                    #[trigger] roles.deep_view()[j],
                ),
        decreases n - i,
    {
        let role = &roles[i];
        let m = allowed.len();
        let mut j: usize = 0;
        while j < m
            invariant
                n == roles@.len(),
                i < n,
                m == allowed@.len(),
                j <= m,
                *role == roles@[i as int],
                forall|q: int| 0 <= q < j ==> allowed.deep_view()[q] != (#[trigger] role@),
                forall|q: int| 0 <= q < j ==> (#[trigger] allowed.deep_view()[q]) != role@,
            decreases m - j,
        {
            if str_eq(role.as_str(), allowed[j].as_str()) {
                proof {
                    assert(allowed.deep_view()[j as int] == role@);
                    assert(roles.deep_view()[i as int] == role@);
                    assert(roles.deep_view().to_set().contains(role@) && allowed.deep_view().to_set().contains(role@));
                }
                return true;
            }
            j = j + 1;
        }
        proof {
            assert(forall|q: int|
                0 <= q < allowed.deep_view().len() ==> (#[trigger] allowed.deep_view()[q])
                    != role@);
            assert(!allowed.deep_view().to_set().contains(roles.deep_view()[i as int]));
        }
        i = i + 1;
    }
    proof {
        if exists|x: Seq<char>|
            roles.deep_view().to_set().contains(x) && allowed.deep_view().to_set().contains(x) {
            let x = choose|x: Seq<char>|
                roles.deep_view().to_set().contains(x) && allowed.deep_view().to_set().contains(x);
            let j = choose|j: int| 0 <= j < roles.deep_view().len() && roles.deep_view()[j] == x;
            assert(!allowed.deep_view().to_set().contains(roles.deep_view()[j]));
        }
    }
    false
}

/// Decide whether a caller holding these roles may reach this path:
/// walk the path component by component, and at every accumulated
/// prefix that the table protects, demand at least one shared role.
/// All ancestor gates must pass; the first failing one denies access.
pub fn has_permission(roles: &Vec<String>, path: &str, table: &ProtectedPathTable) -> (r: bool)
    requires
        table.wf(),
    ensures
        r == is_permitted(roles.deep_view().to_set(), path@, table.as_map()),
{
    let ghost role_set = roles.deep_view().to_set();
    let ghost cs = components(path@);
    let len = path.unicode_len();
    let mut assembled = String::new();

    proof {
        assert(assemble(cs.take(0)) =~= Seq::<char>::empty());
        assert(assembled@ == assemble(cs.take(0)));
    }
    match table.lookup_idx(assembled.as_str()) {
        Some(idx) => {
            if !any_role_allowed(roles, &table.entries[idx].roles) {
                proof {
                    assert(!gate_passes(table.as_map(), role_set, assemble(cs.take(0))));
                    assert(0 <= 0 <= cs.len());
                }
                return false;
            }
        },
        None => {},
    }
    proof {
        assert(gate_passes(table.as_map(), role_set, assemble(cs.take(0))));
        assert(components_from(path@, 0) =~= cs.skip(0));
    }

    let mut i: usize = 0;
    let ghost mut done: int = 0;
    while i < len
        invariant
            table.wf(),
            len == path@.len(),
            i <= len,
            role_set == roles.deep_view().to_set(),
            cs == components(path@),
            0 <= done <= cs.len(),
            components_from(path@, i as int) =~= cs.skip(done),
            assembled@ == assemble(cs.take(done)),
            forall|q: int|
                0 <= q <= done ==> #[trigger] gate_passes(
                    table.as_map(),
                    role_set,
                    assemble(cs.take(q)),
                ),
        decreases len - i,
    {
        let c = path.get_char(i);
        if c == '/' {
            proof {
                assert(components_from(path@, i as int) == components_from(path@, i as int + 1));
            }
            i = i + 1;
            continue ;
        }
        // a component starts at i; find its end
        let mut e: usize = i;
        while e < len && path.get_char(e) != '/'
            invariant
                len == path@.len(),
                i <= e <= len,
                comp_end(path@, i as int) == comp_end(path@, e as int),
                forall|q: int| i <= q < e ==> path@[q] != '/',
            decreases len - e,
        {
            proof {
                assert(comp_end(path@, e as int) == comp_end(path@, e as int + 1));
            }
            e = e + 1;
        }
        proof {
            lemma_comp_end(path@, i as int);
            assert(comp_end(path@, e as int) == e as int);
            assert(comp_end(path@, i as int) == e as int);
            assert(e > i);
            assert(components_from(path@, i as int) == seq![path@.subrange(i as int, e as int)]
                + components_from(path@, e as int));
            assert(cs.skip(done).len() > 0);
            assert(done < cs.len());
            assert(cs.skip(done)[0] == cs[done]);
            assert(cs[done] == path@.subrange(i as int, e as int));
        }
        let part = path.substring_char(i, e);
        assembled.append("/");
        assembled.append(part);
        proof {
            reveal_strlit("/");
            assert(cs.take(done + 1).drop_last() =~= cs.take(done));
            assert(cs.take(done + 1).last() == cs[done]);
            assert(assembled@ == assemble(cs.take(done)) + seq!['/'] + cs[done]);
            assert(assembled@ == assemble(cs.take(done + 1)));
            assert(components_from(path@, e as int) =~= cs.skip(done + 1)) by {
                assert(components_from(path@, i as int) =~= cs.skip(done));
                assert(cs.skip(done).skip(1) =~= cs.skip(done + 1));
                assert(components_from(path@, i as int).skip(1) =~= components_from(
                    path@,
                    e as int,
                ));
            }
        }
        match table.lookup_idx(assembled.as_str()) {
            Some(idx) => {
                if !any_role_allowed(roles, &table.entries[idx].roles) {
                    proof {
                        assert(!gate_passes(
                            table.as_map(),
                            role_set,
                            assemble(cs.take(done + 1)),
                        ));
                        assert(0 <= done + 1 <= cs.len());
                        assert(!is_permitted(role_set, path@, table.as_map()));
                    }
                    return false;
                }
            },
            None => {},
        }
        proof {
            assert(gate_passes(table.as_map(), role_set, assemble(cs.take(done + 1))));
            done = done + 1;
        }
        i = e;
    }
    proof {
        assert(components_from(path@, len as int) =~= Seq::<Seq<char>>::empty());
        assert(cs.skip(done) =~= Seq::<Seq<char>>::empty());
        if done < cs.len() {
            assert(cs.skip(done)[0] == cs[done]);
            assert(false);
        }
        assert(done == cs.len());
    }
    true
}

} // verus!
