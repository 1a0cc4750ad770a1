//! Generation of the code of an RTIC application.
pub mod post_init;
pub mod pre_init;
pub mod util;

use vstd::prelude::*;

use crate::analyze::Analysis;
use crate::backend_traits::{CorePassBackend, SwPassBackend};
use crate::syntax::App;
use crate::out_dir::occurs_at;
use crate::text::{lemma_spaced_piece, push_spaced, push_spaced_strs, spaced, spaced_start, views};
use crate::BackendBindings;
use post_init::{enable_interrupts_stmt, post_init_stmts};
use pre_init::{disable_interrupts_stmt, pre_init_stmts};
use util::{rt_err_ident, rt_err_name};

verus! {

/// The code generated for the parts of an application, each as source text.
pub struct Sections {
    /// The `main` function.
    pub main: String,
    /// The `#[init]` task.
    pub init: String,
    /// The `#[idle]` task.
    pub idle: String,
    /// The shared resources.
    pub shared_resources: String,
    /// The local resources.
    pub local_resources: String,
    /// The hardware tasks.
    pub hardware_tasks: String,
    /// The software tasks.
    pub software_tasks: String,
    /// The dispatchers of the async tasks.
    pub async_dispatchers: String,
}

/// The sections in the order in which the application module holds them.
pub open spec fn section_order(s: Sections) -> Seq<Seq<char>> {
    seq![
        s.init@,
        s.idle@,
        s.hardware_tasks@,
        s.software_tasks@,
        s.shared_resources@,
        s.local_resources@,
        s.async_dispatchers@,
        s.main@,
    ]
}

/// The application module: it imports the device crate, then holds the
/// backend's async priority limit, the user's imports and code, and the
/// generated sections.
pub open spec fn app_text(app: App, async_limit: Seq<Seq<char>>, sections: Sections) -> Seq<char> {
    "#[doc = \" The RTIC application module\"] pub mod "@ + app.name@
        + " { #[doc = \" Always include the device crate which contains the vector table\"] use "@
        + app.device@ + " as "@ + rt_err_name() + "; "@ + spaced(async_limit) + spaced(
        views(app.user_imports@),
    ) + spaced(views(app.user_code@)) + "#[doc = \" User code end\"] "@ + spaced(
        section_order(sections),
    ) + "}"@
}

/// Generates the application module from the generated `sections`.
pub fn app<C: CorePassBackend, S: SwPassBackend>(
    rtic_app: &App,
    analysis: &Analysis,
    bindings: &BackendBindings<C, S>,
    sections: &Sections,
) -> (res: String)
    ensures
        res@ == app_text(*rtic_app, bindings.sw.spec_async_prio_limit(*rtic_app, *analysis), *sections),
{
    let rt_err = rt_err_ident();
    let async_limit = bindings.sw.async_prio_limit(rtic_app, analysis);

    let mut out = String::from_str("#[doc = \" The RTIC application module\"] pub mod ");
    out.append(rtic_app.name.as_str());
    out.append(" { #[doc = \" Always include the device crate which contains the vector table\"] use ");
    out.append(rtic_app.device.as_str());
    out.append(" as ");
    out.append(rt_err.as_str());
    out.append("; ");
    push_spaced(&mut out, &async_limit);
    push_spaced(&mut out, &rtic_app.user_imports);
    push_spaced(&mut out, &rtic_app.user_code);
    out.append("#[doc = \" User code end\"] ");
    let order: Vec<&str> = vec![
        sections.init.as_str(),
        sections.idle.as_str(),
        sections.hardware_tasks.as_str(),
        sections.software_tasks.as_str(),
        sections.shared_resources.as_str(),
        sections.local_resources.as_str(),
        sections.async_dispatchers.as_str(),
        sections.main.as_str(),
    ];
    push_spaced_strs(&mut out, &order);
    out.append("}");
    assert(order@.map_values(|s: &str| s@) =~= section_order(*sections));
    assert(out@ =~= app_text(*rtic_app, bindings.sw.spec_async_prio_limit(*rtic_app, *analysis), *sections));
    out
}

/// Whether each of `pieces` stands in `text` from index `p` on, one after the
/// other in their order, each followed by a single space.
pub open spec fn pieces_at(text: Seq<char>, pieces: Seq<Seq<char>>, p: int) -> bool {
    forall|i: int|
        0 <= i < pieces.len() ==> occurs_at(
            #[trigger] pieces[i] + seq![' '],
            text,
            p + spaced_start(pieces, i),
        )
}

/// Whether the application module `text` holds, from index `p` on, the
/// user's imports and then the user's code, right after the backend's async
/// priority limit items, and then the end-of-user-code marker followed by
/// the generated sections in their order and the closing brace, which ends
/// the module.
pub open spec fn user_items_at(
    text: Seq<char>,
    async_limit: Seq<Seq<char>>,
    imports: Seq<Seq<char>>,
    code: Seq<Seq<char>>,
    sections: Seq<Seq<char>>,
    p: int,
) -> bool {
    let code_at = p + spaced(imports).len();
    let marker_at = code_at + spaced(code).len();
    let marker = "#[doc = \" User code end\"] "@;
    &&& pieces_at(text, async_limit, p - spaced(async_limit).len())
    &&& pieces_at(text, imports, p)
    &&& pieces_at(text, code, code_at)
    &&& occurs_at(marker, text, marker_at)
    &&& pieces_at(text, sections, marker_at + marker.len())
    &&& text.len() == marker_at + marker.len() + spaced(sections).len() + 1
    &&& text.last() == '}'
}

/// Every user import and every item of user code is kept in the application
/// module, in its order, right after the backend's async priority limit
/// items and before the generated sections, which follow in their order.
pub proof fn user_items_kept_in_order(app: App, async_limit: Seq<Seq<char>>, sections: Sections)
    ensures
        exists|p: int|
            user_items_at(
                app_text(app, async_limit, sections),
                async_limit,
                views(app.user_imports@),
                views(app.user_code@),
                section_order(sections),
                p,
            ),
{
    let imports = views(app.user_imports@);
    let code = views(app.user_code@);
    let order = section_order(sections);
    let text = app_text(app, async_limit, sections);
    let marker = "#[doc = \" User code end\"] "@;
    let head = "#[doc = \" The RTIC application module\"] pub mod "@ + app.name@
        + " { #[doc = \" Always include the device crate which contains the vector table\"] use "@
        + app.device@ + " as "@ + rt_err_name() + "; "@;
    let p: int = (head.len() + spaced(async_limit).len()) as int;
    assert(text =~= head + spaced(async_limit) + spaced(imports) + spaced(code) + marker + spaced(
        order,
    ) + "}"@);
    reveal_strlit("}");
    // A piece found in `spaced(pieces)` is found in `text`, where
    // `spaced(pieces)` starts at `at`.
    assert forall|pieces: Seq<Seq<char>>, at: int|
        0 <= at && at + spaced(pieces).len() <= text.len() && text.subrange(
            at,
            at + spaced(pieces).len(),
        ) == spaced(pieces) implies pieces_at(text, pieces, at) by {
        assert forall|i: int| 0 <= i < pieces.len() implies occurs_at(
            #[trigger] pieces[i] + seq![' '],
            text,
            at + spaced_start(pieces, i),
        ) by {
            lemma_spaced_piece(pieces, i);
            let st = spaced_start(pieces, i);
            let len = pieces[i].len() + 1;
            assert(text.subrange(at + st, at + st + len) =~= spaced(pieces).subrange(st, st + len))
                by {
                assert forall|k: int| 0 <= k < len implies #[trigger] text.subrange(
                    at + st,
                    at + st + len,
                )[k] == spaced(pieces).subrange(st, st + len)[k] by {
                    assert(text.subrange(at, at + spaced(pieces).len())[st + k] == text[at + st
                        + k]);
                }
            }
        }
    }
    let lim_at = head.len() as int;
    let code_at: int = p + spaced(imports).len();
    let marker_at: int = code_at + spaced(code).len();
    let sec_at: int = marker_at + marker.len();
    assert(text.subrange(lim_at, lim_at + spaced(async_limit).len()) =~= spaced(async_limit));
    assert(text.subrange(p, p + spaced(imports).len()) =~= spaced(imports));
    assert(text.subrange(code_at, code_at + spaced(code).len()) =~= spaced(code));
    assert(text.subrange(marker_at, marker_at + marker.len()) =~= marker);
    assert(text.subrange(sec_at, sec_at + spaced(order).len()) =~= spaced(order));
    assert(user_items_at(text, async_limit, imports, code, order, p));
}

/// Whether the application module `text` imports the device crate under the
/// name that asks for its `rt` feature at index `k`, right before the
/// backend's async priority limit items.
pub open spec fn device_import_at(
    text: Seq<char>,
    device: Seq<char>,
    async_limit: Seq<Seq<char>>,
    k: int,
) -> bool {
    let import = "use "@ + device + " as "@ + rt_err_name() + "; "@;
    &&& occurs_at(import, text, k)
    &&& pieces_at(text, async_limit, k + import.len())
}

/// The application module is the public module named after the application,
/// and it imports the device crate, under the name that asks for its `rt`
/// feature, right before the backend's async priority limit items.
pub proof fn module_named_after_app(app: App, async_limit: Seq<Seq<char>>, sections: Sections)
    ensures
        ("#[doc = \" The RTIC application module\"] pub mod "@ + app.name@ + " { "@).is_prefix_of(
            app_text(app, async_limit, sections),
        ),
        exists|k: int|
            device_import_at(app_text(app, async_limit, sections), app.device@, async_limit, k),
{
    let text = app_text(app, async_limit, sections);
    let named = "#[doc = \" The RTIC application module\"] pub mod "@ + app.name@ + " { "@;
    let doc = "#[doc = \" Always include the device crate which contains the vector table\"] "@;
    let import = "use "@ + app.device@ + " as "@ + rt_err_name() + "; "@;
    reveal_strlit(" { ");
    reveal_strlit(" { #[doc = \" Always include the device crate which contains the vector table\"] use ");
    reveal_strlit("#[doc = \" Always include the device crate which contains the vector table\"] ");
    reveal_strlit("use ");
    let rest = spaced(async_limit) + spaced(views(app.user_imports@)) + spaced(
        views(app.user_code@),
    ) + "#[doc = \" User code end\"] "@ + spaced(section_order(sections)) + "}"@;
    assert(text =~= named + doc + import + rest);
    assert(named =~= text.subrange(0, named.len() as int));
    let k: int = (named.len() + doc.len()) as int;
    assert(text.subrange(k, k + import.len()) =~= import);
    let lim_at: int = k + import.len();
    assert(text.subrange(lim_at, lim_at + spaced(async_limit).len()) =~= spaced(async_limit));
    assert forall|i: int| 0 <= i < async_limit.len() implies occurs_at(
        #[trigger] async_limit[i] + seq![' '],
        text,
        lim_at + spaced_start(async_limit, i),
    ) by {
        lemma_spaced_piece(async_limit, i);
        let st = spaced_start(async_limit, i);
        let len = async_limit[i].len() + 1;
        assert(text.subrange(lim_at + st, lim_at + st + len) =~= spaced(async_limit).subrange(
            st,
            st + len,
        )) by {
            assert forall|m: int| 0 <= m < len implies #[trigger] text.subrange(
                lim_at + st,
                lim_at + st + len,
            )[m] == spaced(async_limit).subrange(st, st + len)[m] by {
                assert(text.subrange(lim_at, lim_at + spaced(async_limit).len())[st + m]
                    == text[lim_at + st + m]);
            }
        }
    }
    assert(device_import_at(text, app.device@, async_limit, k));
}

/// `#[init]` runs with interrupts disabled: the code before it starts by
/// disabling interrupts, and the code after it ends by enabling them.
pub proof fn init_runs_with_interrupts_disabled<C: CorePassBackend, S: SwPassBackend>(
    app: App,
    analysis: Analysis,
    bindings: BackendBindings<C, S>,
)
    ensures
        pre_init_stmts(app, analysis, bindings)[0] == disable_interrupts_stmt(),
        post_init_stmts(app, analysis, bindings).len() >= 1,
        post_init_stmts(app, analysis, bindings).last() == enable_interrupts_stmt(),
{
}

} // verus!
