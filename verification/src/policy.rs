//! Policy engine: decides ALLOW/DENY for an intent against an allow-list of
//! modules and a table of time-bounded permission grants.
//!
//! The agent prepares and suggests; humans authorize. A grant for a coarse
//! action name (`"device"`) covers every dotted sub-action
//! (`"device.control"`, `"device.control.dim"`), while a finer grant covers
//! only its own subtree; expired grants never authorize.

use crate::error::AgentError;
use crate::text::str_eq;
use crate::types::Intent;
use vstd::prelude::*;

verus! {

/// Permission grant from the user: a set of action namespaces within one
/// module, valid until `expires_at` (forever when `None`).
#[derive(Debug)]
pub struct Permission {
    pub module: String,
    pub actions: Vec<String>,
    /// Reserved qualifiers; never consulted when matching.
    pub scope: Vec<String>,
    /// Instant the grant was made, in seconds since the Unix epoch.
    pub granted_at: i64,
    /// Expiry instant, in seconds since the Unix epoch, when bounded.
    pub expires_at: Option<i64>,
}

/// Copies a vector of strings entry by entry.
pub fn clone_strings(v: &Vec<String>) -> (r: Vec<String>)
    ensures
        r@ == v@,
{
    let mut out: Vec<String> = Vec::new();
    let mut i: usize = 0;
    while i < v.len()
        invariant
            i <= v@.len(),
            out@ == v@.subrange(0, i as int),
        decreases v@.len() - i,
    {
        out.push(v[i].clone());
        i = i + 1;
        assert(out@ =~= v@.subrange(0, i as int));
    }
    assert(out@ =~= v@);
    out
}

impl Clone for Permission {
    fn clone(&self) -> (r: Self)
        ensures
            r.module == self.module,
            r.actions@ == self.actions@,
            r.scope@ == self.scope@,
            r.granted_at == self.granted_at,
            r.expires_at == self.expires_at,
    {
        Permission {
            module: self.module.clone(),
            actions: clone_strings(&self.actions),
            scope: clone_strings(&self.scope),
            granted_at: self.granted_at,
            expires_at: self.expires_at,
        }
    }
}

// --- the matching and expiry rules, as specification -------------------

/// Action name `a` authorizes intent type `t`: exactly equal, or `a` is a
/// namespace ancestor of `t` (`t` starts with `a` followed by a literal
/// dot, so `"device"` covers `"device.control"` but `"dev"` does not).
pub open spec fn action_covers(a: Seq<char>, t: Seq<char>) -> bool {
    a == t || (a + seq!['.']).is_prefix_of(t)
}

/// The grant has not expired at instant `now`.
pub open spec fn perm_live(p: Permission, now: int) -> bool {
    match p.expires_at {
        None => true,
        Some(e) => e >= now,
    }
}

/// The grant has expired at instant `now` (strictly before `now`).
pub open spec fn perm_expired(p: Permission, now: int) -> bool {
    !perm_live(p, now)
}

/// The grant authorizes intent type `t` at instant `now`.
pub open spec fn perm_grants(p: Permission, t: Seq<char>, now: int) -> bool {
    perm_live(p, now) && exists|k: int|
        0 <= k < p.actions@.len() && #[trigger] action_covers(p.actions@[k]@, t)
}

/// Some action of the grant covers `t`, regardless of expiry.
pub open spec fn perm_covers(p: Permission, t: Seq<char>) -> bool {
    exists|k: int| 0 <= k < p.actions@.len() && #[trigger] action_covers(p.actions@[k]@, t)
}

/// Some grant in the list authorizes `t` at instant `now`.
pub open spec fn bucket_grants(b: Seq<Permission>, t: Seq<char>, now: int) -> bool {
    exists|j: int| 0 <= j < b.len() && perm_grants(#[trigger] b[j], t, now)
}

/// Some unexpiring grant in the list covers `t`; such a grant authorizes
/// `t` at every instant.
pub open spec fn bucket_grants_forever(b: Seq<Permission>, t: Seq<char>) -> bool {
    exists|j: int| 0 <= j < b.len() && (#[trigger] b[j]).expires_at is None && perm_covers(b[j], t)
}

/// Some grant in the list covers `t`, expired or not.
pub open spec fn bucket_covers(b: Seq<Permission>, t: Seq<char>) -> bool {
    exists|j: int| 0 <= j < b.len() && perm_covers(#[trigger] b[j], t)
}

/// The grant list stored for module `m`: the first table entry with that
/// key, or the empty list.
pub open spec fn find_bucket(table: Seq<(String, Vec<Permission>)>, m: Seq<char>) -> Seq<Permission>
    decreases table.len(),
{
    if table.len() == 0 {
        Seq::empty()
    } else if table[0].0@ == m {
        table[0].1@
    } else {
        find_bucket(table.drop_first(), m)
    }
}

/// Index of the first table entry keyed `m`, or `-1`.
pub open spec fn bucket_idx(table: Seq<(String, Vec<Permission>)>, m: Seq<char>) -> int
    decreases table.len(),
{
    if table.len() == 0 {
        -1
    } else if table[0].0@ == m {
        0
    } else {
        let r = bucket_idx(table.drop_first(), m);
        if r == -1 {
            -1
        } else {
            r + 1
        }
    }
}

/// The bucket index is `-1` or a position in the table.
pub proof fn lemma_bucket_idx_range(table: Seq<(String, Vec<Permission>)>, m: Seq<char>)
    ensures
        bucket_idx(table, m) == -1 || (0 <= bucket_idx(table, m) < table.len()),
    decreases table.len(),
{
    if table.len() > 0 && table[0].0@ != m {
        lemma_bucket_idx_range(table.drop_first(), m);
    }
}

/// `m` occurs in the module allow-list.
pub open spec fn module_listed(mods: Seq<String>, m: Seq<char>) -> bool {
    exists|i: int| 0 <= i < mods.len() && (#[trigger] mods[i])@ == m
}

// --- the engine ---------------------------------------------------------

/// Policy engine holding the volatile grant table and the module
/// allow-list. An empty allow-list means no module restriction; a
/// non-empty one means only listed modules may ever be authorized.
#[derive(Debug)]
pub struct PolicyEngine {
    /// Grant table: module name to grants, in insertion order, keys unique.
    pub permissions: Vec<(String, Vec<Permission>)>,
    pub allowed_modules: Vec<String>,
}

/// The complete authorization rule: an intent passes at instant `now` when
/// it needs no permission at all, or when it names a target module that
/// the allow-list admits and some unexpired grant of that module covers
/// its intent type.
pub open spec fn permits_intent(e: PolicyEngine, i: Intent, now: int) -> bool {
    ||| !i.requires_permission
    ||| (i.target_module is Some && {
        let m = i.target_module->0@;
        &&& (e.allowed_modules@.len() == 0 || module_listed(e.allowed_modules@, m))
        &&& bucket_grants(find_bucket(e.permissions@, m), i.intent_type@, now)
    })
}

/// The violation message for a denied intent: the first failing stage
/// names the reason.
pub open spec fn denial_message(e: PolicyEngine, i: Intent, now: int) -> Seq<char> {
    if i.target_module is None {
        "Intent requires permission but has no target module"@
    } else if e.allowed_modules@.len() > 0 && !module_listed(
        e.allowed_modules@,
        i.target_module->0@,
    ) {
        "Module '"@ + i.target_module->0@ + "' is not in allowed modules list"@
    } else {
        "No valid permission found for intent type '"@ + i.intent_type@ + "'"@
    }
}

// --- executable matching helpers ----------------------------------------

/// True when action name `a` authorizes intent type `t`.
pub fn action_covers_exec(a: &str, t: &str) -> (r: bool)
    ensures
        r == action_covers(a@, t@),
{
    if str_eq(a, t) {
        return true;
    }
    let an = a.unicode_len();
    let tn = t.unicode_len();
    if an >= tn {
        proof {
            if (a@ + seq!['.']).is_prefix_of(t@) {
                assert((a@ + seq!['.']).len() == a@.len() + 1);
            }
        }
        return false;
    }
    if crate::text::starts_with_str(t, a) && t.get_char(an) == '.' {
        proof {
            assert((a@ + seq!['.']) =~= t@.subrange(0, a@.len() as int + 1));
            assert(t@.subrange(0, a@.len() as int + 1).is_prefix_of(t@));
        }
        true
    } else {
        proof {
            if (a@ + seq!['.']).is_prefix_of(t@) {
                assert(forall|i: int|
                    0 <= i < a@.len() ==> a@[i] == (a@ + seq!['.'])[i] && (a@ + seq!['.'])[i]
                        == t@[i]);
                assert(a@.is_prefix_of(t@)) by {
                    assert(a@ =~= t@.subrange(0, a@.len() as int));
                }
                assert(t@[a@.len() as int] == (a@ + seq!['.'])[a@.len() as int]);
            }
        }
        false
    }
}

fn perm_live_exec(p: &Permission, now: i64) -> (r: bool)
    ensures
        r == perm_live(*p, now as int),
{
    match &p.expires_at {
        None => true,
        Some(e) => *e >= now,
    }
}

fn perm_grants_exec(p: &Permission, t: &str, now: i64) -> (r: bool)
    ensures
        r == perm_grants(*p, t@, now as int),
{
    if !perm_live_exec(p, now) {
        return false;
    }
    let n = p.actions.len();
    let mut k: usize = 0;
    while k < n
        invariant
            perm_live(*p, now as int),
            n == p.actions@.len(),
            k <= n,
            forall|j: int| 0 <= j < k ==> !#[trigger] action_covers(p.actions@[j]@, t@),
        decreases n - k,
    {
        if action_covers_exec(p.actions[k].as_str(), t) {
            proof {
                assert(perm_live(*p, now as int));
                assert(exists|kk: int|
                    0 <= kk < p.actions@.len() && #[trigger] action_covers(
                        p.actions@[kk]@,
                        t@,
                    )) by {
                    assert(0 <= (k as int) && (k as int) < p.actions@.len());
                    assert(action_covers(p.actions@[k as int]@, t@));
                }
                assert(perm_grants(*p, t@, now as int));
            }
            return true;
        }
        k = k + 1;
    }
    false
}

fn bucket_grants_exec(b: &Vec<Permission>, t: &str, now: i64) -> (r: bool)
    ensures
        r == bucket_grants(b@, t@, now as int),
{
    let n = b.len();
    let mut j: usize = 0;
    while j < n
        invariant
            n == b@.len(),
            j <= n,
            forall|i: int| 0 <= i < j ==> !perm_grants(#[trigger] b@[i], t@, now as int),
        decreases n - j,
    {
        if perm_grants_exec(&b[j], t, now) {
            return true;
        }
        j = j + 1;
    }
    false
}

fn module_listed_exec(mods: &Vec<String>, m: &str) -> (r: bool)
    ensures
        r == module_listed(mods@, m@),
{
    let n = mods.len();
    let mut i: usize = 0;
    while i < n
        invariant
            n == mods@.len(),
            i <= n,
            forall|j: int| 0 <= j < i ==> (#[trigger] mods@[j])@ != m@,
        decreases n - i,
    {
        if str_eq(mods[i].as_str(), m) {
            return true;
        }
        i = i + 1;
    }
    false
}

/// A borrowed view of the grant list stored for `m`, when an entry exists.
fn bucket_ref<'a>(table: &'a Vec<(String, Vec<Permission>)>, m: &str) -> (r: Option<
    &'a Vec<Permission>,
>)
    ensures
        match r {
            Some(b) => b@ == find_bucket(table@, m@),
            None => find_bucket(table@, m@) == Seq::<Permission>::empty(),
        },
{
    let n = table.len();
    let mut i: usize = 0;
    proof {
        assert(table@.skip(0) =~= table@);
    }
    while i < n
        invariant
            n == table@.len(),
            i <= n,
            find_bucket(table@, m@) == find_bucket(table@.skip(i as int), m@),
        decreases n - i,
    {
        proof {
            assert(table@.skip(i as int)[0] == table@[i as int]);
            assert(table@.skip(i as int).drop_first() =~= table@.skip(i + 1));
        }
        if str_eq(table[i].0.as_str(), m) {
            return Some(&table[i].1);
        }
        i = i + 1;
    }
    proof {
        assert(table@.skip(n as int) =~= Seq::<(String, Vec<Permission>)>::empty());
    }
    None
}

// --- specifications for the mutating operations --------------------------

/// The table with every entry keyed `m` removed.
pub open spec fn remove_key(table: Seq<(String, Vec<Permission>)>, m: Seq<char>) -> Seq<
    (String, Vec<Permission>),
>
    decreases table.len(),
{
    if table.len() == 0 {
        table
    } else if table[0].0@ == m {
        remove_key(table.drop_first(), m)
    } else {
        seq![table[0]] + remove_key(table.drop_first(), m)
    }
}

/// The grant list with expired grants removed.
pub open spec fn keep_live(b: Seq<Permission>, now: int) -> Seq<Permission>
    decreases b.len(),
{
    if b.len() == 0 {
        b
    } else if perm_live(b[0], now) {
        seq![b[0]] + keep_live(b.drop_first(), now)
    } else {
        keep_live(b.drop_first(), now)
    }
}

/// Number of grants in the list whose expiry lies strictly before `now`.
pub open spec fn count_expired_bucket(b: Seq<Permission>, now: int) -> int
    decreases b.len(),
{
    if b.len() == 0 {
        0
    } else {
        (if perm_expired(b[0], now) {
            1int
        } else {
            0int
        }) + count_expired_bucket(b.drop_first(), now)
    }
}

/// Total number of grants across the table.
pub open spec fn total_perms(table: Seq<(String, Vec<Permission>)>) -> int
    decreases table.len(),
{
    if table.len() == 0 {
        0
    } else {
        total_perms(table.drop_last()) + table.last().1@.len()
    }
}

/// Total number of expired grants across the table at instant `now`.
pub open spec fn total_expired(table: Seq<(String, Vec<Permission>)>, now: int) -> int
    decreases table.len(),
{
    if table.len() == 0 {
        0
    } else {
        total_expired(table.drop_last(), now) + count_expired_bucket(table.last().1@, now)
    }
}

/// `n` is `o` with every bucket pruned of expired grants and every entry
/// whose bucket became empty dropped, order preserved.
pub open spec fn pruned_rel(
    o: Seq<(String, Vec<Permission>)>,
    n: Seq<(String, Vec<Permission>)>,
    now: int,
) -> bool
    decreases o.len(),
{
    if o.len() == 0 {
        n.len() == 0
    } else {
        let kept = keep_live(o.last().1@, now);
        if kept.len() == 0 {
            pruned_rel(o.drop_last(), n, now)
        } else {
            &&& n.len() > 0
            &&& n.last().0 == o.last().0
            &&& n.last().1@ == kept
            &&& pruned_rel(o.drop_last(), n.drop_last(), now)
        }
    }
}

/// The two grants agree field for field.
pub open spec fn perm_like(a: Permission, b: Permission) -> bool {
    &&& a.module == b.module
    &&& a.actions@ == b.actions@
    &&& a.scope@ == b.scope@
    &&& a.granted_at == b.granted_at
    &&& a.expires_at == b.expires_at
}

/// `r` lists, field for field and in stored order, exactly the grants of
/// `m`'s bucket that are live at instant `now`.
pub open spec fn lists_live_grants(
    r: Seq<Permission>,
    table: Seq<(String, Vec<Permission>)>,
    m: Seq<char>,
    now: int,
) -> bool {
    let kl = keep_live(find_bucket(table, m), now);
    r.len() == kl.len() && forall|i: int| 0 <= i < kl.len() ==> perm_like(#[trigger] r[i], kl[i])
}

/// The two tables agree entry for entry: same keys, same grants.
pub open spec fn table_like(
    a: Seq<(String, Vec<Permission>)>,
    b: Seq<(String, Vec<Permission>)>,
) -> bool {
    &&& a.len() == b.len()
    &&& forall|i: int|
        0 <= i < a.len() ==> (#[trigger] a[i]).0 == b[i].0 && a[i].1@ == b[i].1@
}

// --- laws ---------------------------------------------------------------

/// An action name other than the intent type itself covers it only as a
/// dotted namespace ancestor: the intent type continues the action name
/// with a literal `.` (so `"device"` never covers `"devicecontrol"`).
pub proof fn lemma_cover_needs_dot(a: Seq<char>, t: Seq<char>)
    requires
        action_covers(a, t),
        a != t,
    ensures
        a.len() < t.len(),
        t.subrange(0, a.len() as int) == a,
        t[a.len() as int] == '.',
{
    assert((a + seq!['.']).len() == a.len() + 1);
    assert(t.subrange(0, a.len() as int) =~= a) by {
        assert(forall|i: int|
            0 <= i < a.len() ==> t[i] == (a + seq!['.'])[i] && (a + seq!['.'])[i] == a[i]);
    }
    assert(t[a.len() as int] == (a + seq!['.'])[a.len() as int]);
}

/// A grant whose expiry lies strictly in the past authorizes nothing, at
/// any instant at or after that expiry and for any intent type.
pub proof fn lemma_expired_grant_never_authorizes(p: Permission, t: Seq<char>, now: int)
    requires
        p.expires_at is Some,
        p.expires_at->0 < now,
    ensures
        !perm_grants(p, t, now),
{
}

proof fn lemma_grants_implies_covers(b: Seq<Permission>, t: Seq<char>, now: int)
    requires
        bucket_grants(b, t, now),
    ensures
        bucket_covers(b, t),
{
    let j = choose|j: int| 0 <= j < b.len() && perm_grants(#[trigger] b[j], t, now);
    assert(perm_covers(b[j], t));
}

proof fn lemma_forever_grants(b: Seq<Permission>, t: Seq<char>, now: int)
    requires
        bucket_grants_forever(b, t),
    ensures
        bucket_grants(b, t, now),
{
    let j = choose|j: int|
        0 <= j < b.len() && (#[trigger] b[j]).expires_at is None && perm_covers(b[j], t);
    assert(perm_live(b[j], now));
    assert(perm_grants(b[j], t, now));
}

/// Pruning a grant list of expired grants is idempotent: every grant the
/// prune keeps is live.
pub proof fn lemma_keep_live_idempotent(b: Seq<Permission>, now: int)
    ensures
        keep_live(keep_live(b, now), now) == keep_live(b, now),
        count_expired_bucket(keep_live(b, now), now) == 0,
    decreases b.len(),
{
    if b.len() > 0 {
        lemma_keep_live_idempotent(b.drop_first(), now);
        if perm_live(b[0], now) {
            let k = seq![b[0]] + keep_live(b.drop_first(), now);
            assert(k.drop_first() =~= keep_live(b.drop_first(), now));
            assert(keep_live(k, now) =~= seq![k[0]] + keep_live(k.drop_first(), now));
        }
    }
}

/// Clearing expired grants twice in a row changes nothing the second
/// time: the once-pruned table holds no expired grant, so a second prune
/// removes zero grants and leaves the table as it stands.
pub proof fn lemma_clear_expired_idempotent(
    o: Seq<(String, Vec<Permission>)>,
    n: Seq<(String, Vec<Permission>)>,
    m: Seq<(String, Vec<Permission>)>,
    now: int,
)
    requires
        pruned_rel(o, n, now),
        pruned_rel(n, m, now),
    ensures
        total_expired(n, now) == 0,
        table_like(m, n),
    decreases o.len(),
{
    if o.len() == 0 {
        assert(n.len() == 0);
        assert(m.len() == 0);
    } else {
        let kept = keep_live(o.last().1@, now);
        if kept.len() == 0 {
            lemma_clear_expired_idempotent(o.drop_last(), n, m, now);
        } else {
            lemma_keep_live_idempotent(o.last().1@, now);
            assert(n.len() > 0 && n.last().1@ == kept);
            assert(keep_live(n.last().1@, now) == kept);
            assert(pruned_rel(n, m, now) ==> m.len() > 0 && m.last().0 == n.last().0
                && m.last().1@ == kept && pruned_rel(n.drop_last(), m.drop_last(), now));
            lemma_clear_expired_idempotent(o.drop_last(), n.drop_last(), m.drop_last(), now);
            assert(total_expired(n, now) == total_expired(n.drop_last(), now)
                + count_expired_bucket(n.last().1@, now));
            assert(table_like(m, n)) by {
                assert(m.len() == n.len());
                assert(forall|i: int|
                    0 <= i < n.len() - 1 ==> (#[trigger] m[i]) == m.drop_last()[i]
                        && n[i] == n.drop_last()[i]);
            }
        }
    }
}

/// The first-match index characterizes the stored bucket.
pub proof fn lemma_find_bucket_at(table: Seq<(String, Vec<Permission>)>, m: Seq<char>)
    ensures
        ({
            let i = bucket_idx(table, m);
            if i >= 0 {
                &&& 0 <= i < table.len()
                &&& table[i].0@ == m
                &&& forall|j: int| 0 <= j < i ==> (#[trigger] table[j]).0@ != m
                &&& find_bucket(table, m) == table[i].1@
            } else {
                &&& forall|j: int| 0 <= j < table.len() ==> (#[trigger] table[j]).0@ != m
                &&& find_bucket(table, m) == Seq::<Permission>::empty()
            }
        }),
    decreases table.len(),
{
    if table.len() > 0 && table[0].0@ != m {
        lemma_find_bucket_at(table.drop_first(), m);
        lemma_bucket_idx_range(table.drop_first(), m);
        assert(forall|j: int|
            1 <= j < table.len() ==> table.drop_first()[j - 1] == (#[trigger] table[j]));
    }
}

/// Tables with the same keys in the same places index alike.
proof fn lemma_bucket_idx_same_keys(
    t: Seq<(String, Vec<Permission>)>,
    u: Seq<(String, Vec<Permission>)>,
    m: Seq<char>,
)
    requires
        t.len() == u.len(),
        forall|j: int| 0 <= j < t.len() ==> (#[trigger] t[j]).0@ == u[j].0@,
    ensures
        bucket_idx(t, m) == bucket_idx(u, m),
    decreases t.len(),
{
    if t.len() > 0 {
        lemma_bucket_idx_same_keys(t.drop_first(), u.drop_first(), m);
        assert(forall|j: int|
            0 <= j < t.drop_first().len() ==> (#[trigger] t.drop_first()[j]).0@
                == u.drop_first()[j].0@) by {
            assert(forall|j: int|
                0 <= j < t.drop_first().len() ==> t.drop_first()[j] == (#[trigger] t[j + 1])
                    && u.drop_first()[j] == u[j + 1]);
        }
        assert(t[0].0@ == u[0].0@);
    }
}

/// Granting a permission extends exactly its module's bucket and leaves
/// every other module's bucket as it stood: the shape that
/// [`PolicyEngine::grant_permission`] ensures yields this at the level of
/// the checking rules.
pub proof fn lemma_grant_extends_one_bucket(
    t: Seq<(String, Vec<Permission>)>,
    u: Seq<(String, Vec<Permission>)>,
    p: Permission,
)
    requires
        ({
            let i = bucket_idx(t, p.module@);
            if i >= 0 {
                &&& u.len() == t.len()
                &&& forall|j: int| 0 <= j < t.len() && j != i ==> u[j] == t[j]
                &&& u[i].0 == t[i].0
                &&& u[i].1@ == t[i].1@.push(p)
            } else {
                &&& u.len() == t.len() + 1
                &&& forall|j: int| 0 <= j < t.len() ==> u[j] == t[j]
                &&& u[t.len() as int].0 == p.module
                &&& u[t.len() as int].1@ == seq![p]
            }
        }),
    ensures
        find_bucket(u, p.module@) == find_bucket(t, p.module@).push(p),
        forall|m: Seq<char>| m != p.module@ ==> find_bucket(u, m) == #[trigger] find_bucket(t, m),
{
    let i = bucket_idx(t, p.module@);
    lemma_find_bucket_at(t, p.module@);
    lemma_bucket_idx_range(t, p.module@);
    if i >= 0 {
        assert(forall|j: int| 0 <= j < t.len() ==> (#[trigger] t[j]).0@ == u[j].0@);
        assert forall|m: Seq<char>| true implies find_bucket(u, m) == (if m == p.module@ {
            find_bucket(t, m).push(p)
        } else {
            find_bucket(t, m)
        }) by {
            lemma_bucket_idx_same_keys(t, u, m);
            lemma_find_bucket_at(u, m);
            lemma_find_bucket_at(t, m);
            lemma_bucket_idx_range(u, m);
            let k = bucket_idx(t, m);
            if m == p.module@ {
                assert(k == i);
                assert(find_bucket(u, m) == u[i].1@);
            } else if k >= 0 {
                assert(t[k].0@ == m);
                assert(k != i);
                assert(u[k] == t[k]);
            }
        }
    } else {
        assert forall|m: Seq<char>| true implies find_bucket(u, m) == (if m == p.module@ {
            find_bucket(t, m).push(p)
        } else {
            find_bucket(t, m)
        }) by {
            lemma_find_bucket_at(u, m);
            lemma_bucket_idx_range(u, m);
            let k = bucket_idx(u, m);
            assert(u.drop_last().len() == t.len());
            assert(forall|j: int|
                0 <= j < t.len() ==> (#[trigger] u.drop_last()[j]).0@ == t[j].0@) by {
                assert(forall|j: int|
                    0 <= j < t.len() ==> (#[trigger] u.drop_last()[j]) == u[j] && u[j] == t[j]);
            }
            lemma_bucket_idx_same_keys(u.drop_last(), t, m);
            if m == p.module@ {
                assert(find_bucket(t, m) == Seq::<Permission>::empty());
                assert(k != -1) by {
                    assert(u[t.len() as int].0@ == m);
                    if k == -1 {
                        lemma_find_bucket_at(u, m);
                    }
                }
                assert(0 <= k < u.len());
                assert(u[k].0@ == m);
                assert(k == t.len()) by {
                    if k < t.len() {
                        assert(t[k].0@ == m);
                    }
                }
                assert(find_bucket(u, m) == seq![p]);
                assert(Seq::<Permission>::empty().push(p) =~= seq![p]);
            } else {
                let kt = bucket_idx(t, m);
                lemma_find_bucket_at(t, m);
                if kt >= 0 {
                    assert(u[kt] == t[kt]);
                    assert(k != -1) by {
                        if k == -1 {
                            assert(u[kt].0@ != m);
                        }
                    }
                    assert(k == kt) by {
                        assert(forall|j: int| 0 <= j < kt ==> (#[trigger] u[j]).0@ != m);
                        if k < kt {
                            assert(t[k].0@ == u[k].0@ && u[k].0@ == m);
                        }
                        if k > kt {
                            assert(u[kt].0@ != m);
                        }
                    }
                    assert(find_bucket(u, m) == u[kt].1@);
                } else {
                    assert(k == -1) by {
                        if k >= 0 {
                            assert(u[k].0@ == m);
                            if k < t.len() {
                                assert(t[k].0@ == m);
                            } else {
                                assert(u[t.len() as int].0@ == p.module@);
                            }
                        }
                    }
                }
            }
        }
    }
}

proof fn lemma_total_perms_prefix(table: Seq<(String, Vec<Permission>)>, k: int)
    requires
        0 <= k <= table.len(),
    ensures
        total_perms(table.subrange(0, k)) <= total_perms(table),
    decreases table.len() - k,
{
    if k == table.len() {
        assert(table.subrange(0, k) =~= table);
    } else {
        lemma_total_perms_prefix(table, k + 1);
        assert(table.subrange(0, k + 1).drop_last() =~= table.subrange(0, k));
        assert(total_perms(table.subrange(0, k + 1)) == total_perms(table.subrange(0, k))
            + table[k].1@.len());
    }
}

// --- the engine's operations ---------------------------------------------

impl PolicyEngine {
    /// A fresh engine with no grants. An empty `allowed_modules` list
    /// imposes no module restriction.
    pub fn new(allowed_modules: Vec<String>) -> (r: Self)
        ensures
            r.permissions@ == Seq::<(String, Vec<Permission>)>::empty(),
            r.allowed_modules == allowed_modules,
    {
        PolicyEngine { permissions: Vec::new(), allowed_modules }
    }

    /// Appends a grant to the table under its module, without
    /// deduplicating or merging overlapping grants.
    pub fn grant_permission(&mut self, permission: Permission)
        ensures
            final(self).allowed_modules == old(self).allowed_modules,
            ({
                let t = old(self).permissions@;
                let u = final(self).permissions@;
                let i = bucket_idx(t, permission.module@);
                if i >= 0 {
                    &&& u.len() == t.len()
                    &&& forall|j: int| 0 <= j < t.len() && j != i ==> u[j] == t[j]
                    &&& u[i].0 == t[i].0
                    &&& u[i].1@ == t[i].1@.push(permission)
                } else {
                    &&& u.len() == t.len() + 1
                    &&& forall|j: int| 0 <= j < t.len() ==> u[j] == t[j]
                    &&& u[t.len() as int].0 == permission.module
                    &&& u[t.len() as int].1@ == seq![permission]
                }
            }),
    {
        let ghost t = self.permissions@;
        let ghost m = permission.module@;
        let n = self.permissions.len();
        let mut i: usize = 0;
        proof {
            assert(t.skip(0) =~= t);
        }
        while i < n
            invariant
                self.allowed_modules == old(self).allowed_modules,
                t == self.permissions@,
                t == old(self).permissions@,
                m == permission.module@,
                n == t.len(),
                i <= n,
                forall|j: int| 0 <= j < i ==> (#[trigger] t[j]).0@ != m,
                bucket_idx(t, m) == ({
                    let r = bucket_idx(t.skip(i as int), m);
                    if r == -1 {
                        -1int
                    } else {
                        r + i
                    }
                }),
            decreases n - i,
        {
            proof {
                assert(t.skip(i as int)[0] == t[i as int]);
                assert(t.skip(i as int).drop_first() =~= t.skip(i + 1));
            }
            if str_eq(self.permissions[i].0.as_str(), permission.module.as_str()) {
                proof {
                    assert(t[i as int].0@ == m);
                    assert(t.skip(i as int)[0].0@ == m);
                    assert(bucket_idx(t.skip(i as int), m) == 0);
                    assert(bucket_idx(t, m) == i);
                }
                let pair = self.permissions.remove(i);
                let name = pair.0;
                let mut bucket = pair.1;
                bucket.push(permission);
                self.permissions.insert(i, (name, bucket));
                proof {
                    assert(self.permissions@ =~= t.update(i as int, (t[i as int].0, bucket)));
                    let to = old(self).permissions@;
                    assert(to == t);
                    let u = self.permissions@;
                    let ii = bucket_idx(to, permission.module@);
                    assert(ii == i);
                    assert(u.len() == to.len());
                    assert(forall|j: int| 0 <= j < to.len() && j != ii ==> u[j] == to[j]);
                    assert(u[ii].0 == to[ii].0);
                    assert(bucket@ == to[i as int].1@.push(permission));
                    assert(u[ii].1@ == to[ii].1@.push(permission));
                }
                return ;
            }
            i = i + 1;
            proof {
                lemma_bucket_idx_range(t.skip(i as int), m);
                assert(bucket_idx(t.skip(i - 1), m) == ({
                    let r = bucket_idx(t.skip(i as int), m);
                    if r == -1 {
                        -1int
                    } else {
                        r + 1
                    }
                }));
            }
        }
        proof {
            assert(t.skip(n as int) =~= Seq::<(String, Vec<Permission>)>::empty());
            assert(bucket_idx(t, m) == -1);
        }
        let name = permission.module.clone();
        let mut bucket: Vec<Permission> = Vec::new();
        bucket.push(permission);
        self.permissions.push((name, bucket));
        proof {
            assert(self.permissions@[t.len() as int].1@ =~= seq![permission]);
        }
    }

    /// The full authorization decision, judged at instant `now`: success
    /// exactly when the rule in [`permits_intent`] holds, and otherwise the
    /// policy violation named by [`denial_message`].
    pub fn check_intent_at(&self, intent: &Intent, now: i64) -> (r: Result<(), AgentError>)
        ensures
            r is Ok <==> permits_intent(*self, *intent, now as int),
            r is Err ==> r->Err_0 is PolicyViolation,
            r is Err ==> r->Err_0->PolicyViolation_0@ == denial_message(*self, *intent, now as int),
    {
        if !intent.requires_permission {
            return Ok(());
        }
        match &intent.target_module {
            None => Err(
                AgentError::PolicyViolation(
                    String::from_str("Intent requires permission but has no target module"),
                ),
            ),
            Some(m) => {
                if self.allowed_modules.len() > 0 && !module_listed_exec(
                    &self.allowed_modules,
                    m.as_str(),
                ) {
                    let mut msg = String::from_str("Module '");
                    msg.append(m.as_str());
                    msg.append("' is not in allowed modules list");
                    proof {
                        assert(msg@ =~= "Module '"@ + m@ + "' is not in allowed modules list"@);
                    }
                    Err(AgentError::PolicyViolation(msg))
                } else {
                    let granted = match bucket_ref(&self.permissions, m.as_str()) {
                        Some(b) => bucket_grants_exec(b, intent.intent_type.as_str(), now),
                        None => false,
                    };
                    if granted {
                        Ok(())
                    } else {
                        let mut msg = String::from_str(
                            "No valid permission found for intent type '",
                        );
                        msg.append(intent.intent_type.as_str());
                        msg.append("'");
                        proof {
                            assert(msg@ =~= "No valid permission found for intent type '"@
                                + intent.intent_type@ + "'"@);
                        }
                        Err(AgentError::PolicyViolation(msg))
                    }
                }
            },
        }
    }

    /// Judges the intent at the current wall-clock instant, read once. The
    /// decision is exactly [`permits_intent`] at that instant; an intent
    /// that needs no permission always passes, an unexpiring covering
    /// grant always suffices, and success always implies a covering grant.
    pub fn check_intent(&self, intent: &Intent) -> (r: Result<(), AgentError>)
        ensures
            !intent.requires_permission ==> r is Ok,
            r is Err ==> r->Err_0 is PolicyViolation,
            exists|now: int|
                (r is Ok <==> permits_intent(*self, *intent, now)) && (r is Err
                    ==> r->Err_0->PolicyViolation_0@ == denial_message(*self, *intent, now)),
            intent.requires_permission && r is Ok ==> intent.target_module is Some && bucket_covers(
                find_bucket(self.permissions@, intent.target_module->0@),
                intent.intent_type@,
            ),
            intent.requires_permission && intent.target_module is Some && (
            self.allowed_modules@.len() == 0 || module_listed(
                self.allowed_modules@,
                intent.target_module->0@,
            )) && bucket_grants_forever(
                find_bucket(self.permissions@, intent.target_module->0@),
                intent.intent_type@,
            ) ==> r is Ok,
    {
        let now = crate::types::now_ts();
        let r = self.check_intent_at(intent, now);
        proof {
            if intent.requires_permission && r is Ok {
                lemma_grants_implies_covers(
                    find_bucket(self.permissions@, intent.target_module->0@),
                    intent.intent_type@,
                    now as int,
                );
            }
            if intent.requires_permission && intent.target_module is Some && (
            self.allowed_modules@.len() == 0 || module_listed(
                self.allowed_modules@,
                intent.target_module->0@,
            )) && bucket_grants_forever(
                find_bucket(self.permissions@, intent.target_module->0@),
                intent.intent_type@,
            ) {
                lemma_forever_grants(
                    find_bucket(self.permissions@, intent.target_module->0@),
                    intent.intent_type@,
                    now as int,
                );
            }
        }
        r
    }

    /// Removes every grant for `module`, expired or not.
    pub fn revoke_module(&mut self, module: &str)
        ensures
            final(self).allowed_modules == old(self).allowed_modules,
            final(self).permissions@ == remove_key(old(self).permissions@, module@),
    {
        let ghost t = self.permissions@;
        let mut i: usize = 0;
        proof {
            assert(t.skip(0) =~= t);
            assert(t.subrange(0, 0) =~= Seq::<(String, Vec<Permission>)>::empty());
        }
        while i < self.permissions.len()
            invariant
                self.allowed_modules == old(self).allowed_modules,
                i <= self.permissions@.len(),
                forall|j: int| 0 <= j < i ==> (#[trigger] self.permissions@[j]).0@ != module@,
                remove_key(t, module@) == self.permissions@.subrange(0, i as int) + remove_key(
                    self.permissions@.skip(i as int),
                    module@,
                ),
            decreases self.permissions@.len() - i,
        {
            let ghost cur = self.permissions@;
            proof {
                assert(cur.skip(i as int)[0] == cur[i as int]);
                assert(cur.skip(i as int).drop_first() =~= cur.skip(i + 1));
            }
            if str_eq(self.permissions[i].0.as_str(), module) {
                self.permissions.remove(i);
                proof {
                    assert(self.permissions@ =~= cur.remove(i as int));
                    assert(self.permissions@.subrange(0, i as int) =~= cur.subrange(0, i as int));
                    assert(self.permissions@.skip(i as int) =~= cur.skip(i + 1));
                }
            } else {
                i = i + 1;
                proof {
                    assert(cur.subrange(0, i as int) =~= cur.subrange(0, i - 1) + seq![
                        cur[i - 1],
                    ]);
                    assert(cur.subrange(0, i - 1) + (seq![cur[i - 1]] + remove_key(
                        cur.skip(i as int),
                        module@,
                    )) =~= cur.subrange(0, i as int) + remove_key(cur.skip(i as int), module@));
                }
            }
        }
        proof {
            let cur = self.permissions@;
            assert(cur.skip(i as int) =~= Seq::<(String, Vec<Permission>)>::empty());
            assert(cur.subrange(0, i as int) =~= cur);
        }
    }

    /// Removes every grant across all modules whose expiry lies strictly
    /// before `now`, drops modules left without grants, and returns the
    /// number of grants removed.
    pub fn clear_expired_at(&mut self, now: i64) -> (r: usize)
        requires
            total_perms(old(self).permissions@) <= usize::MAX,
        ensures
            final(self).allowed_modules == old(self).allowed_modules,
            pruned_rel(old(self).permissions@, final(self).permissions@, now as int),
            r == total_expired(old(self).permissions@, now as int),
    {
        let ghost t = self.permissions@;
        let mut i: usize = 0;
        let ghost mut oi: int = 0;
        let mut removed: usize = 0;
        proof {
            assert(t.skip(0) =~= t);
            assert(t.subrange(0, 0) =~= Seq::<(String, Vec<Permission>)>::empty());
        }
        while i < self.permissions.len()
            invariant
                total_perms(t) <= usize::MAX,
                self.allowed_modules == old(self).allowed_modules,
                0 <= i <= self.permissions@.len(),
                0 <= oi <= t.len(),
                i <= oi,
                self.permissions@.skip(i as int) == t.skip(oi),
                pruned_rel(t.subrange(0, oi), self.permissions@.subrange(0, i as int), now as int),
                removed == total_expired(t.subrange(0, oi), now as int),
                removed <= total_perms(t.subrange(0, oi)),
            decreases t.len() - oi,
        {
            let ghost cur = self.permissions@;
            proof {
                assert(cur.skip(i as int)[0] == cur[i as int]);
                assert(oi < t.len()) by {
                    assert(cur.skip(i as int).len() > 0);
                }
                assert(t.skip(oi)[0] == t[oi]);
                assert(cur[i as int] == t[oi]);
                assert(cur.skip(i as int).drop_first() =~= cur.skip(i + 1));
                assert(t.skip(oi).drop_first() =~= t.skip(oi + 1));
                assert(t.subrange(0, oi + 1).drop_last() =~= t.subrange(0, oi));
                assert(t.subrange(0, oi + 1).last() == t[oi]);
                lemma_total_perms_prefix(t, oi + 1);
            }
            let pair = self.permissions.remove(i);
            let name = pair.0;
            let mut bucket = pair.1;
            let rb = prune_bucket(&mut bucket, now);
            removed = removed + rb;
            if bucket.len() > 0 {
                self.permissions.insert(i, (name, bucket));
                proof {
                    assert(self.permissions@ =~= cur.update(i as int, (t[oi].0, bucket)));
                    assert(self.permissions@.subrange(0, i + 1) =~= cur.subrange(0, i as int)
                        + seq![(t[oi].0, bucket)]);
                    assert(self.permissions@.subrange(0, i + 1).drop_last() =~= cur.subrange(
                        0,
                        i as int,
                    ));
                    assert(self.permissions@.skip(i + 1) =~= cur.skip(i + 1));
                }
                i = i + 1;
            } else {
                proof {
                    assert(self.permissions@ =~= cur.remove(i as int));
                    assert(self.permissions@.subrange(0, i as int) =~= cur.subrange(0, i as int));
                    assert(self.permissions@.skip(i as int) =~= cur.skip(i + 1));
                }
            }
            proof {
                oi = oi + 1;
            }
        }
        proof {
            let cur = self.permissions@;
            assert(cur.skip(i as int) =~= Seq::<(String, Vec<Permission>)>::empty());
            assert(t.skip(oi) =~= Seq::<(String, Vec<Permission>)>::empty());
            assert(oi == t.len());
            assert(t.subrange(0, oi) =~= t);
            assert(cur.subrange(0, i as int) =~= cur);
        }
        removed
    }

    /// Removes every grant expired at the current wall-clock instant, read
    /// once, and returns the number removed.
    pub fn clear_expired(&mut self) -> (r: usize)
        requires
            total_perms(old(self).permissions@) <= usize::MAX,
        ensures
            final(self).allowed_modules == old(self).allowed_modules,
            exists|now: int|
                pruned_rel(old(self).permissions@, final(self).permissions@, now) && r
                    == total_expired(old(self).permissions@, now),
    {
        let now = crate::types::now_ts();
        let r = self.clear_expired_at(now);
        proof {
            assert(pruned_rel(old(self).permissions@, final(self).permissions@, now as int));
        }
        r
    }

    /// The grants held for `module` that are still live at instant `now`,
    /// copied out in stored order.
    pub fn get_permissions_at(&self, module: &str, now: i64) -> (r: Vec<Permission>)
        ensures
            lists_live_grants(r@, self.permissions@, module@, now as int),
    {
        let mut out: Vec<Permission> = Vec::new();
        let b = match bucket_ref(&self.permissions, module) {
            Some(b) => b,
            None => {
                return out;
            },
        };
        let ghost bs = b@;
        let n = b.len();
        let mut j: usize = 0;
        proof {
            assert(bs.skip(0) =~= bs);
        }
        while j < n
            invariant
                bs == b@,
                n == bs.len(),
                j <= n,
                keep_live(bs, now as int) == keep_live(bs.subrange(0, j as int), now as int)
                    + keep_live(bs.skip(j as int), now as int),
                out@.len() == keep_live(bs.subrange(0, j as int), now as int).len(),
                forall|i: int|
                    0 <= i < out@.len() ==> perm_like(
                        #[trigger] out@[i],
                        keep_live(bs.subrange(0, j as int), now as int)[i],
                    ),
            decreases n - j,
        {
            proof {
                assert(bs.skip(j as int)[0] == bs[j as int]);
                assert(bs.skip(j as int).drop_first() =~= bs.skip(j + 1));
                assert(bs.subrange(0, j + 1).drop_first() =~= bs.subrange(1, j + 1));
            }
            let ghost pre = keep_live(bs.subrange(0, j as int), now as int);
            if perm_live_exec(&b[j], now) {
                out.push(b[j].clone());
            }
            proof {
                lemma_keep_live_split(bs, j as int, now as int);
            }
            j = j + 1;
        }
        proof {
            assert(bs.subrange(0, n as int) =~= bs);
        }
        out
    }

    /// The grants held for `module` that are live at the current
    /// wall-clock instant, read once.
    pub fn get_permissions(&self, module: &str) -> (r: Vec<Permission>)
        ensures
            exists|now: int| #[trigger] lists_live_grants(r@, self.permissions@, module@, now),
    {
        let now = crate::types::now_ts();
        let r = self.get_permissions_at(module, now);
        proof {
            assert(lists_live_grants(r@, self.permissions@, module@, now as int));
        }
        r
    }

    /// Whether some unexpired grant of `module` covers `action` at instant
    /// `now`, by the same ancestor-matching rule as intent checking. The
    /// module allow-list is not consulted here.
    pub fn is_action_permitted_at(&self, module: &str, action: &str, now: i64) -> (r: bool)
        ensures
            r == bucket_grants(find_bucket(self.permissions@, module@), action@, now as int),
    {
        match bucket_ref(&self.permissions, module) {
            Some(b) => bucket_grants_exec(b, action, now),
            None => false,
        }
    }

    /// Whether some unexpired grant of `module` covers `action` at the
    /// current wall-clock instant, read once.
    pub fn is_action_permitted(&self, module: &str, action: &str) -> (r: bool)
        ensures
            exists|now: int|
                r == bucket_grants(find_bucket(self.permissions@, module@), action@, now),
            bucket_grants_forever(find_bucket(self.permissions@, module@), action@) ==> r,
            r ==> bucket_covers(find_bucket(self.permissions@, module@), action@),
    {
        let now = crate::types::now_ts();
        let r = self.is_action_permitted_at(module, action, now);
        proof {
            let b = find_bucket(self.permissions@, module@);
            assert(r == bucket_grants(b, action@, now as int));
            if bucket_grants_forever(b, action@) {
                lemma_forever_grants(b, action@, now as int);
            }
            if r {
                lemma_grants_implies_covers(b, action@, now as int);
            }
        }
        r
    }
}

proof fn lemma_keep_live_split(b: Seq<Permission>, j: int, now: int)
    requires
        0 <= j < b.len(),
    ensures
        keep_live(b.subrange(0, j + 1), now) == if perm_live(b[j], now) {
            keep_live(b.subrange(0, j), now).push(b[j])
        } else {
            keep_live(b.subrange(0, j), now)
        },
        keep_live(b.skip(j), now) == if perm_live(b[j], now) {
            seq![b[j]] + keep_live(b.skip(j + 1), now)
        } else {
            keep_live(b.skip(j + 1), now)
        },
{
    assert(b.skip(j)[0] == b[j]);
    assert(b.skip(j).drop_first() =~= b.skip(j + 1));
    lemma_keep_live_concat(b.subrange(0, j), seq![b[j]], now);
    assert(b.subrange(0, j) + seq![b[j]] =~= b.subrange(0, j + 1));
    assert(seq![b[j]].drop_first() =~= Seq::<Permission>::empty());
    assert(keep_live(Seq::<Permission>::empty(), now) =~= Seq::<Permission>::empty());
    if perm_live(b[j], now) {
        assert(keep_live(seq![b[j]], now) =~= seq![b[j]]);
        assert(keep_live(b.subrange(0, j), now) + seq![b[j]] =~= keep_live(
            b.subrange(0, j),
            now,
        ).push(b[j]));
    } else {
        assert(keep_live(seq![b[j]], now) =~= Seq::<Permission>::empty());
        assert(keep_live(b.subrange(0, j), now) + Seq::<Permission>::empty() =~= keep_live(
            b.subrange(0, j),
            now,
        ));
    }
}

/// Pruning distributes over concatenation of grant lists.
proof fn lemma_keep_live_concat(a: Seq<Permission>, b: Seq<Permission>, now: int)
    ensures
        keep_live(a + b, now) == keep_live(a, now) + keep_live(b, now),
    decreases a.len(),
{
    if a.len() == 0 {
        assert(a + b =~= b);
        assert(keep_live(a, now) + keep_live(b, now) =~= keep_live(b, now));
    } else {
        lemma_keep_live_concat(a.drop_first(), b, now);
        assert((a + b).drop_first() =~= a.drop_first() + b);
        assert((a + b)[0] == a[0]);
        if perm_live(a[0], now) {
            assert(seq![a[0]] + (keep_live(a.drop_first(), now) + keep_live(b, now)) =~= (seq![
                a[0],
            ] + keep_live(a.drop_first(), now)) + keep_live(b, now));
        }
    }
}

/// Removes the expired grants from `b` in place, preserving order, and
/// returns how many were removed.
fn prune_bucket(b: &mut Vec<Permission>, now: i64) -> (r: usize)
    ensures
        final(b)@ == keep_live(old(b)@, now as int),
        r == count_expired_bucket(old(b)@, now as int),
        final(b)@.len() + r == old(b)@.len(),
{
    let ghost orig = b@;
    let n0 = b.len();
    let mut j: usize = 0;
    let mut removed: usize = 0;
    proof {
        assert(orig.skip(0) =~= orig);
        assert(orig.subrange(0, 0) =~= Seq::<Permission>::empty());
    }
    while j < b.len()
        invariant
            n0 == orig.len(),
            j <= b@.len(),
            removed + b@.len() == orig.len(),
            keep_live(orig, now as int) == b@.subrange(0, j as int) + keep_live(
                b@.skip(j as int),
                now as int,
            ),
            count_expired_bucket(orig, now as int) == removed + count_expired_bucket(
                b@.skip(j as int),
                now as int,
            ),
        decreases b@.len() - j,
    {
        let ghost cur = b@;
        proof {
            assert(cur.skip(j as int)[0] == cur[j as int]);
            assert(cur.skip(j as int).drop_first() =~= cur.skip(j + 1));
        }
        if perm_live_exec(&b[j], now) {
            j = j + 1;
            proof {
                assert(cur.subrange(0, j as int) =~= cur.subrange(0, j - 1) + seq![cur[j - 1]]);
                assert(cur.subrange(0, j - 1) + (seq![cur[j - 1]] + keep_live(
                    cur.skip(j as int),
                    now as int,
                )) =~= cur.subrange(0, j as int) + keep_live(cur.skip(j as int), now as int));
            }
        } else {
            b.remove(j);
            removed = removed + 1;
            proof {
                assert(b@ =~= cur.remove(j as int));
                assert(b@.subrange(0, j as int) =~= cur.subrange(0, j as int));
                assert(b@.skip(j as int) =~= cur.skip(j + 1));
            }
        }
    }
    proof {
        assert(b@.skip(j as int) =~= Seq::<Permission>::empty());
        assert(b@.subrange(0, j as int) =~= b@);
    }
    removed
}

} // verus!
