//! The code that runs after `#[init]` returns.
use vstd::prelude::*;

use crate::analyze::Analysis;
use crate::backend_traits::{CorePassBackend, SwPassBackend};
use crate::codegen::util::{
    local_resource_static, shared_resource_static, static_local_resource_ident,
    static_shared_resource_ident,
};
use crate::syntax::{is_resource_name, App, Resource};
use crate::text::{contains_name, opt_seq, push_spaced, spaced, views};
use crate::BackendBindings;

verus! {

/// The two kinds of resources: shared and local ones.
pub enum Pool {
    /// The fields of the `#[shared]` struct.
    Shared,
    /// The fields of the `#[local]` struct.
    Local,
}

/// The statement that enables interrupts.
pub open spec fn enable_interrupts_stmt() -> Seq<char> {
    "rtic::export::interrupt::enable();"@
}

/// The name of the static that holds the resource `name` of `pool`.
pub open spec fn resource_static(pool: Pool, name: Seq<char>) -> Seq<char> {
    match pool {
        Pool::Shared => shared_resource_static(name),
        Pool::Local => local_resource_static(name),
    }
}

/// The value `#[init]` returns the initial values of the resources of
/// `pool` in.
pub open spec fn resources_struct(pool: Pool) -> Seq<char> {
    match pool {
        Pool::Shared => "shared_resources"@,
        Pool::Local => "local_resources"@,
    }
}

/// The statement that moves the initial value of the resource `name` of
/// `pool`, returned by `#[init]`, into its static; it carries the field's
/// `cfgs`.
pub open spec fn init_stmt(pool: Pool, name: Seq<char>, cfgs: Seq<Seq<char>>) -> Seq<char> {
    spaced(cfgs) + resource_static(pool, name) + ".get_mut().write(core::mem::MaybeUninit::new("@
        + resources_struct(pool) + "."@ + name + "));"@
}

/// The initialisation statement of a declared resource of `pool`.
pub open spec fn entry_stmt(pool: Pool, entry: (String, Resource)) -> Seq<char> {
    init_stmt(pool, entry.0@, views(entry.1.cfgs@))
}

/// The initialisation statements of the resources of `pool`, in declaration
/// order, for those whose name is in `live` only.
pub open spec fn inits(pool: Pool, resources: Seq<(String, Resource)>, live: Seq<Seq<char>>) -> Seq<
    Seq<char>,
>
    decreases resources.len(),
{
    if resources.len() == 0 {
        Seq::empty()
    } else {
        inits(pool, resources.drop_last(), live) + if live.contains(resources.last().0@) {
            seq![entry_stmt(pool, resources.last())]
        } else {
            Seq::empty()
        }
    }
}

/// The resources of `pool` that `app` declares.
pub open spec fn pool_resources(app: App, pool: Pool) -> Seq<(String, Resource)> {
    match pool {
        Pool::Shared => app.shared_resources@,
        Pool::Local => app.local_resources@,
    }
}

/// The names of the live resources of `pool`.
pub open spec fn live_names(analysis: Analysis, pool: Pool) -> Seq<Seq<char>> {
    match pool {
        Pool::Shared => views(analysis.shared_resources@),
        Pool::Local => views(analysis.local_resources@),
    }
}

/// The initialisation statements of the live resources of `pool`.
pub open spec fn pool_inits(app: App, analysis: Analysis, pool: Pool) -> Seq<Seq<char>> {
    inits(pool, pool_resources(app, pool), live_names(analysis, pool))
}

/// Where the statements of `pool` start among the post-init statements.
pub open spec fn pool_offset(app: App, analysis: Analysis, pool: Pool) -> int {
    match pool {
        Pool::Shared => 0,
        Pool::Local => pool_inits(app, analysis, Pool::Shared).len() as int,
    }
}

/// The statements that run after `#[init]`: the live shared resources are
/// initialised, then the live local resources, then comes the backend's own
/// set-up, and last interrupts are enabled.
pub open spec fn post_init_stmts<C: CorePassBackend, S: SwPassBackend>(
    app: App,
    analysis: Analysis,
    bindings: BackendBindings<C, S>,
) -> Seq<Seq<char>> {
    pool_inits(app, analysis, Pool::Shared) + pool_inits(app, analysis, Pool::Local) + opt_seq(
        bindings.core.spec_post_init(app, analysis),
    ) + seq![enable_interrupts_stmt()]
}

/// The initialisation statement of the resource `name` of `pool`.
fn init_statement(pool: &Pool, name: &String, res: &Resource) -> (stmt: String)
    ensures
        stmt@ == init_stmt(*pool, name@, views(res.cfgs@)),
{
    let mut stmt = String::new();
    push_spaced(&mut stmt, &res.cfgs);
    let mangled = match pool {
        Pool::Shared => static_shared_resource_ident(name),
        Pool::Local => static_local_resource_ident(name),
    };
    stmt.append(mangled.as_str());
    stmt.append(".get_mut().write(core::mem::MaybeUninit::new(");
    match pool {
        Pool::Shared => stmt.append("shared_resources"),
        Pool::Local => stmt.append("local_resources"),
    }
    stmt.append(".");
    stmt.append(name.as_str());
    stmt.append("));");
    assert(stmt@ =~= init_stmt(*pool, name@, views(res.cfgs@)));
    stmt
}

/// Appends the initialisation statements of the resources of `pool` whose
/// name is in `live`, in declaration order.
fn push_inits(
    stmts: &mut Vec<String>,
    pool: &Pool,
    resources: &Vec<(String, Resource)>,
    live: &Vec<String>,
)
    ensures
        views(final(stmts)@) == views(old(stmts)@) + inits(*pool, resources@, views(live@)),
{
    let ghost start = views(stmts@);
    let mut i: usize = 0;
    while i < resources.len()
        invariant
            i <= resources.len(),
            views(stmts@) == start + inits(*pool, resources@.take(i as int), views(live@)),
        decreases resources.len() - i,
    {
        let entry = &resources[i];
        proof {
            assert(resources@.take(i + 1).drop_last() =~= resources@.take(i as int));
            assert(resources@.take(i + 1).last() == *entry);
        }
        let ghost prev = views(stmts@);
        if contains_name(live, &entry.0) {
            stmts.push(init_statement(pool, &entry.0, &entry.1));
        }
        assert(views(stmts@) =~= prev + if views(live@).contains(entry.0@) {
            seq![entry_stmt(*pool, *entry)]
        } else {
            Seq::empty()
        });
        assert(views(stmts@) =~= start + inits(*pool, resources@.take(i + 1), views(live@)));
        i += 1;
    }
    assert(resources@.take(resources.len() as int) =~= resources@);
}

/// Generates the statements that run after `#[init]` returns.
pub fn codegen<C: CorePassBackend, S: SwPassBackend>(
    app: &App,
    analysis: &Analysis,
    bindings: &BackendBindings<C, S>,
) -> (stmts: Vec<String>)
    ensures
        views(stmts@) == post_init_stmts(*app, *analysis, *bindings),
{
    let mut stmts: Vec<String> = Vec::new();
    assert(views(stmts@) =~= Seq::<Seq<char>>::empty());

    // Initialize shared resources
    push_inits(&mut stmts, &Pool::Shared, &app.shared_resources, &analysis.shared_resources);

    // Initialize local resources
    push_inits(&mut stmts, &Pool::Local, &app.local_resources, &analysis.local_resources);

    match bindings.core.post_init(app, analysis) {
        Some(code) => {
            stmts.push(code);
        },
        None => {},
    }

    // Enable the interrupts -- this completes the `init`-ialization phase
    stmts.push(String::from_str("rtic::export::interrupt::enable();"));
    assert(views(stmts@) =~= post_init_stmts(*app, *analysis, *bindings));
    stmts
}

/// Each live resource has its initialisation statement among `inits`.
proof fn inits_include_live(
    pool: Pool,
    resources: Seq<(String, Resource)>,
    live: Seq<Seq<char>>,
    k: int,
)
    requires
        0 <= k < resources.len(),
        live.contains(resources[k].0@),
    ensures
        inits(pool, resources, live).contains(entry_stmt(pool, resources[k])),
    decreases resources.len(),
{
    let stmt = entry_stmt(pool, resources[k]);
    let prev = inits(pool, resources.drop_last(), live);
    if k == resources.len() - 1 {
        assert(inits(pool, resources, live) == prev + seq![stmt]);
        assert(inits(pool, resources, live)[prev.len() as int] == stmt);
    } else {
        assert(resources.drop_last()[k] == resources[k]);
        inits_include_live(pool, resources.drop_last(), live, k);
        let i = choose|i: int| 0 <= i < prev.len() && prev[i] == stmt;
        assert(inits(pool, resources, live)[i] == stmt);
    }
}

/// Every live resource is initialised after `#[init]` and before interrupts
/// are enabled: its statement comes before the last statement, which
/// enables interrupts.
pub proof fn live_resource_initialized_before_enable<C: CorePassBackend, S: SwPassBackend>(
    app: App,
    analysis: Analysis,
    bindings: BackendBindings<C, S>,
    pool: Pool,
    k: int,
)
    requires
        0 <= k < pool_resources(app, pool).len(),
        live_names(analysis, pool).contains(pool_resources(app, pool)[k].0@),
    ensures
        post_init_stmts(app, analysis, bindings).last() == enable_interrupts_stmt(),
        exists|i: int|
            0 <= i < post_init_stmts(app, analysis, bindings).len() - 1
                && post_init_stmts(app, analysis, bindings)[i] == entry_stmt(
                pool,
                pool_resources(app, pool)[k],
            ),
{
    let mine = pool_inits(app, analysis, pool);
    let stmt = entry_stmt(pool, pool_resources(app, pool)[k]);
    inits_include_live(pool, pool_resources(app, pool), live_names(analysis, pool), k);
    let i = choose|i: int| 0 <= i < mine.len() && mine[i] == stmt;
    let all = post_init_stmts(app, analysis, bindings);
    assert(all[pool_offset(app, analysis, pool) + i] == stmt);
}

/// The backend's post-init code runs whatever resources are live: when it has
/// some, it is the statement right before the last one, which enables
/// interrupts; the statements are the resources' initialisations, that code
/// and the enabling, nothing else.
pub proof fn backend_post_init_runs_before_enable<C: CorePassBackend, S: SwPassBackend>(
    app: App,
    analysis: Analysis,
    bindings: BackendBindings<C, S>,
)
    ensures
        ({
            let stmts = post_init_stmts(app, analysis, bindings);
            let backend = bindings.core.spec_post_init(app, analysis);
            &&& stmts.len() == pool_inits(app, analysis, Pool::Shared).len() + pool_inits(
                app,
                analysis,
                Pool::Local,
            ).len() + (if backend is Some {
                1int
            } else {
                0int
            }) + 1
            &&& stmts.last() == enable_interrupts_stmt()
            &&& backend matches Some(code) ==> stmts[stmts.len() - 2] == code
        }),
{
}

/// Each statement of `inits` initialises a live resource.
pub proof fn inits_only_live(pool: Pool, resources: Seq<(String, Resource)>, live: Seq<Seq<char>>)
    ensures
        forall|i: int|
            0 <= i < inits(pool, resources, live).len() ==> exists|k: int|
                0 <= k < resources.len() && live.contains(resources[k].0@) && #[trigger] inits(
                    pool,
                    resources,
                    live,
                )[i] == entry_stmt(pool, resources[k]),
    decreases resources.len(),
{
    if resources.len() == 0 {
        assert(inits(pool, resources, live).len() == 0);
    } else {
        let rest = resources.drop_last();
        let prev = inits(pool, rest, live);
        inits_only_live(pool, rest, live);
        assert forall|i: int| 0 <= i < inits(pool, resources, live).len() implies exists|k: int|
            0 <= k < resources.len() && live.contains(resources[k].0@) && #[trigger] inits(
                pool,
                resources,
                live,
            )[i] == entry_stmt(pool, resources[k]) by {
            if i < prev.len() {
                assert(prev[i] == inits(pool, resources, live)[i]);
                let k = choose|k: int|
                    0 <= k < rest.len() && live.contains(rest[k].0@) && #[trigger] prev[i]
                        == entry_stmt(pool, rest[k]);
                assert(rest[k] == resources[k]);
                assert(0 <= k < resources.len() && live.contains(resources[k].0@) && inits(
                    pool,
                    resources,
                    live,
                )[i] == entry_stmt(pool, resources[k]));
            } else {
                let k = resources.len() - 1;
                assert(resources.last() == resources[k]);
                assert(live.contains(resources[k].0@));
                assert(inits(pool, resources, live) == prev + seq![entry_stmt(pool, resources[k])]);
                assert(inits(pool, resources, live)[i] == entry_stmt(pool, resources[k]));
            }
        }
    }
}

/// Two texts that end in a name and the same suffix, each name preceded by a
/// `.` and free of `.`, end in the same name.
proof fn lemma_same_tail_name(
    pre1: Seq<char>,
    n1: Seq<char>,
    pre2: Seq<char>,
    n2: Seq<char>,
    x: Seq<char>,
)
    requires
        pre1 + n1 + x == pre2 + n2 + x,
        pre1.len() > 0 && pre1.last() == '.',
        pre2.len() > 0 && pre2.last() == '.',
        is_resource_name(n1),
        is_resource_name(n2),
    ensures
        n1 == n2,
{
    let t = pre1 + n1 + x;
    let u = pre2 + n2 + x;
    assert(t.len() == u.len());
    if n1.len() < n2.len() {
        let idx = pre1.len() - 1;
        assert(t[idx] == '.');
        assert(u[idx] == n2[idx - pre2.len()]);
    } else if n2.len() < n1.len() {
        let idx = pre2.len() - 1;
        assert(u[idx] == '.');
        assert(t[idx] == n1[idx - pre1.len()]);
    } else {
        assert(n1 =~= t.subrange(pre1.len() as int, (pre1.len() + n1.len()) as int));
        assert(n2 =~= u.subrange(pre2.len() as int, (pre2.len() + n2.len()) as int));
    }
}

/// Initialisation statements of resources of one pool with different names
/// differ.
proof fn lemma_init_stmt_injective(
    pool: Pool,
    n1: Seq<char>,
    c1: Seq<Seq<char>>,
    n2: Seq<char>,
    c2: Seq<Seq<char>>,
)
    requires
        is_resource_name(n1),
        is_resource_name(n2),
        init_stmt(pool, n1, c1) == init_stmt(pool, n2, c2),
    ensures
        n1 == n2,
{
    reveal_strlit(".");
    let mid = ".get_mut().write(core::mem::MaybeUninit::new("@;
    lemma_same_tail_name(
        spaced(c1) + resource_static(pool, n1) + mid + resources_struct(pool) + "."@,
        n1,
        spaced(c2) + resource_static(pool, n2) + mid + resources_struct(pool) + "."@,
        n2,
        "));"@,
    );
}

/// Whether the resources have distinct names that are identifiers.
pub open spec fn distinct_resource_names(resources: Seq<(String, Resource)>) -> bool {
    &&& forall|i: int| 0 <= i < resources.len() ==> is_resource_name(#[trigger] resources[i].0@)
    &&& forall|i: int, j: int|
        0 <= i < j < resources.len() ==> #[trigger] resources[i].0@ != #[trigger] resources[j].0@
}

/// With distinct names, a live resource has exactly one statement among
/// `inits`.
proof fn inits_once(pool: Pool, resources: Seq<(String, Resource)>, live: Seq<Seq<char>>, k: int)
    requires
        distinct_resource_names(resources),
        0 <= k < resources.len(),
        live.contains(resources[k].0@),
    ensures
        exists|i: int|
            0 <= i < inits(pool, resources, live).len() && inits(pool, resources, live)[i]
                == entry_stmt(pool, resources[k]) && forall|j: int|
                0 <= j < inits(pool, resources, live).len() && inits(pool, resources, live)[j]
                    == entry_stmt(pool, resources[k]) ==> j == i,
    decreases resources.len(),
{
    let sh = inits(pool, resources, live);
    let n = resources.len() - 1;
    let rest = resources.drop_last();
    let prev = inits(pool, rest, live);
    let stmt = entry_stmt(pool, resources[k]);
    assert(distinct_resource_names(rest)) by {
        assert forall|i: int| 0 <= i < rest.len() implies is_resource_name(#[trigger] rest[i].0@) by {
            assert(rest[i] == resources[i]);
        }
        assert forall|i: int, j: int| 0 <= i < j < rest.len() implies #[trigger] rest[i].0@
            != #[trigger] rest[j].0@ by {
            assert(rest[i] == resources[i] && rest[j] == resources[j]);
        }
    }
    assert(is_resource_name(resources[k].0@));
    assert(is_resource_name(resources[n].0@));
    if k < n {
        assert(rest[k] == resources[k]);
        inits_once(pool, rest, live, k);
        let i = choose|i: int|
            0 <= i < prev.len() && prev[i] == stmt && forall|j: int|
                0 <= j < prev.len() && prev[j] == stmt ==> j == i;
        assert(sh[i] == stmt);
        assert forall|j: int| 0 <= j < sh.len() && sh[j] == stmt implies j == i by {
            if j >= prev.len() {
                assert(sh[j] == entry_stmt(pool, resources.last()));
                lemma_init_stmt_injective(
                    pool,
                    resources[n].0@,
                    views(resources[n].1.cfgs@),
                    resources[k].0@,
                    views(resources[k].1.cfgs@),
                );
            } else {
                assert(prev[j] == sh[j]);
            }
        }
    } else {
        let i = prev.len() as int;
        assert(sh[i] == stmt);
        inits_only_live(pool, rest, live);
        assert forall|j: int| 0 <= j < sh.len() && sh[j] == stmt implies j == i by {
            if j < prev.len() {
                assert(prev[j] == sh[j]);
                let k2 = choose|k2: int|
                    0 <= k2 < rest.len() && live.contains(rest[k2].0@) && #[trigger] prev[j]
                        == entry_stmt(pool, rest[k2]);
                assert(rest[k2] == resources[k2]);
                assert(is_resource_name(resources[k2].0@));
                lemma_init_stmt_injective(
                    pool,
                    resources[k2].0@,
                    views(resources[k2].1.cfgs@),
                    resources[k].0@,
                    views(resources[k].1.cfgs@),
                );
            }
        }
    }
}

/// In a well-formed application, every live resource is initialised exactly
/// once after `#[init]`: among the initialisation statements of its pool,
/// which stand at `pool_offset` in the post-init code, one is its own.
pub proof fn live_resource_initialized_once<C: CorePassBackend, S: SwPassBackend>(
    app: App,
    analysis: Analysis,
    bindings: BackendBindings<C, S>,
    pool: Pool,
    k: int,
)
    requires
        app.wf(),
        0 <= k < pool_resources(app, pool).len(),
        live_names(analysis, pool).contains(pool_resources(app, pool)[k].0@),
    ensures
        ({
            let mine = pool_inits(app, analysis, pool);
            let at = pool_offset(app, analysis, pool);
            let stmt = entry_stmt(pool, pool_resources(app, pool)[k]);
            &&& post_init_stmts(app, analysis, bindings).subrange(at, at + mine.len()) == mine
            &&& exists|i: int|
                0 <= i < mine.len() && mine[i] == stmt && forall|j: int|
                    0 <= j < mine.len() && mine[j] == stmt ==> j == i
        }),
{
    let mine = pool_inits(app, analysis, pool);
    let at = pool_offset(app, analysis, pool);
    assert(post_init_stmts(app, analysis, bindings).subrange(at, at + mine.len()) =~= mine);
    assert(distinct_resource_names(pool_resources(app, pool)));
    inits_once(pool, pool_resources(app, pool), live_names(analysis, pool), k);
}

} // verus!
