//! Expressions as C writes them.

use vstd::prelude::*;

use crate::c_source;
use crate::c_source::{required_access, rewrite_source, TaskContext, TaskView};
use crate::c_static_plan::{CChildPlan, CChildTarget, ChildPlanView, ChildTargetView};
use crate::context_layout::LogicalFieldId;
use crate::control_flow::CfgValue;
use crate::liveness::LiftedField;
use crate::order;
use crate::order::sort_order;
use crate::semantic::{HirExpr, HirExprKind, ScopeId};
use crate::storage_lifetimes;
use crate::symbol_index::FunctionId;
use crate::syntax;
use crate::text;
use crate::text::{c_identifier, chars_of, put, put2, put3, put4, put5, slice_bytes};

verus! {

/// What the names of expressions mean.
#[derive(Clone, Copy)]
pub struct Scene<'a> {
    pub fields: &'a Vec<LiftedField>,
    pub task: Option<TaskContext<'a>>,
    pub prefix: &'a str,
    pub children: &'a Vec<&'a CChildPlan>,
}

/// The contents of a scene.
pub struct SceneView {
    pub fields: Seq<LiftedField>,
    pub task: Option<TaskView>,
    pub prefix: Seq<char>,
    pub children: Seq<ChildPlanView>,
}

impl<'a> View for Scene<'a> {
    type V = SceneView;

    open spec fn view(&self) -> SceneView {
        SceneView {
            fields: self.fields@,
            task: c_source::task_view(self.task),
            prefix: self.prefix@,
            children: syntax::views(self.children@),
        }
    }
}

/// The name stem of a function, as the last of the first `n` children that
/// call it has it.
pub open spec fn static_stem(children: Seq<ChildPlanView>, id: FunctionId, n: int) -> Option<
    Seq<char>,
>
    decreases n,
{
    if n <= 0 {
        None
    } else {
        match children[n - 1].target {
            ChildTargetView::Static(callee) => if callee.function == id {
                Some(callee.stem)
            } else {
                static_stem(children, id, n - 1)
            },
            ChildTargetView::Dynamic(value) => static_stem(children, id, n - 1),
        }
    }
}

/// The name stem of a called function.
pub open spec fn stem_of(
    target: Option<FunctionId>,
    callee: Seq<char>,
    scene: SceneView,
) -> Seq<char> {
    let plain = Seq::<char>::empty() + text::identifier_text(scene.prefix) + text::identifier_text(
        callee,
    );
    match target {
        Some(id) => match static_stem(scene.children, id, scene.children.len() as int) {
            Some(stem) => stem,
            None => plain,
        },
        None => plain,
    }
}

/// The difference of two positions, or 0.
pub open spec fn distance(a: usize, b: usize) -> int {
    if a >= b {
        a - b
    } else {
        0
    }
}

/// The order of extensions in the source.
pub open spec fn extension_keys(extensions: Seq<HirExpr>) -> Seq<Seq<u64>> {
    Seq::new(extensions.len(), |i: int| seq![extensions[i].span.start_byte as u64])
}

/// The positions of extensions in the order of the source.
pub open spec fn extension_order(extensions: Seq<HirExpr>) -> Seq<int> {
    order::stable_order(extension_keys(extensions), extensions.len() as int)
}

/// An expression as C writes it.
pub open spec fn expression_text(e: HirExpr, scopes: Seq<ScopeId>, scene: SceneView) -> Seq<char>
    decreases e, 0int,
{
    match e.kind {
        HirExprKind::Source(source) => c_source::rewritten(
            source@,
            e.span.start_byte as nat,
            scopes,
            scene.fields,
            scene.task,
        ),
        HirExprKind::AwaitResultRef(slot) => c_source::path(
            scene.task->0,
            LogicalFieldId::AwaitResult(slot),
        ),
        HirExprKind::Composite { source, extensions } => composite_text(
            Seq::empty(),
            e.span.start_byte,
            source@,
            0,
            extensions@,
            extension_order(extensions@),
            0,
            scopes,
            scene,
        ),
        HirExprKind::TaskRef { declaration, name } => match scene.task {
            Some(task) => if storage_lifetimes::lifted_at(scene.fields, declaration, 0) is Some
                && c_source::placed(task, LogicalFieldId::Lifted(declaration)) {
                c_source::path(task, LogicalFieldId::Lifted(declaration))
            } else {
                name@
            },
            None => name@,
        },
        HirExprKind::Call { function, arguments } => expression_text(*function, scopes, scene)
            + "("@ + arguments_text(arguments@, arguments@.len() as int, scopes, scene) + ")"@,
        HirExprKind::AsyncCall { target, callee, arguments, result_type } => {
            let stem = stem_of(target, callee@, scene);
            let list = arguments_text(arguments@, arguments@.len() as int, scopes, scene);
            Seq::<char>::empty() + stem + "_into_awaitable("@ + stem + "_create("@ + list + if list
                == ""@ {
                "NULL"@
            } else {
                ", NULL"@
            } + "))"@
        },
        HirExprKind::Binary { left, operator, right } => Seq::<char>::empty() + "("@
            + expression_text(*left, scopes, scene) + " "@ + operator@ + " "@ + expression_text(
            *right,
            scopes,
            scene,
        ) + ")"@,
        HirExprKind::Conditional { condition, consequence, alternative } => Seq::<char>::empty()
            + "("@ + expression_text(*condition, scopes, scene) + " ? "@ + expression_text(
            *consequence,
            scopes,
            scene,
        ) + " : "@ + expression_text(*alternative, scopes, scene) + ")"@,
        HirExprKind::Comma { left, right } => Seq::<char>::empty() + "("@ + expression_text(
            *left,
            scopes,
            scene,
        ) + ", "@ + expression_text(*right, scopes, scene) + ")"@,
        HirExprKind::Assignment { left, operator, right } => Seq::<char>::empty() + "("@
            + expression_text(*left, scopes, scene) + " "@ + operator@ + " "@ + expression_text(
            *right,
            scopes,
            scene,
        ) + ")"@,
        HirExprKind::Unary { operator, operand } => Seq::<char>::empty() + operator@ + "("@
            + expression_text(*operand, scopes, scene) + ")"@,
        HirExprKind::Await(operand) => expression_text(*operand, scopes, scene),
        HirExprKind::Yield(value) => match value {
            Some(own) => expression_text(*own, scopes, scene),
            None => ""@,
        },
    }
}

/// The first `n` arguments, separated by commas.
pub open spec fn arguments_text(
    list: Seq<HirExpr>,
    n: int,
    scopes: Seq<ScopeId>,
    scene: SceneView,
) -> Seq<char>
    decreases list, n,
{
    if n <= 0 || n > list.len() {
        Seq::empty()
    } else {
        let before = arguments_text(list, n - 1, scopes, scene);
        let separated = if n > 1 {
            before + ", "@
        } else {
            before
        };
        separated + expression_text(list[n - 1], scopes, scene)
    }
}

/// Source text from byte `cursor` on, with the extensions from number `j` on in
/// their places.
pub open spec fn composite_text(
    out: Seq<char>,
    start: usize,
    source: Seq<char>,
    cursor: int,
    extensions: Seq<HirExpr>,
    places: Seq<int>,
    j: int,
    scopes: Seq<ScopeId>,
    scene: SceneView,
) -> Seq<char>
    decreases extensions, places.len() - j,
{
    if j < 0 || j >= places.len() || !(0 <= places[j] < extensions.len()) {
        out + c_source::rewritten(
            source.skip(text::chars_before(source, cursor)),
            (start + cursor) as nat,
            scopes,
            scene.fields,
            scene.task,
        )
    } else {
        let extension = extensions[places[j]];
        composite_text(
            out + c_source::rewritten(
                text::byte_slice(source, cursor, distance(extension.span.start_byte, start)),
                (start + cursor) as nat,
                scopes,
                scene.fields,
                scene.task,
            ) + expression_text(extension, scopes, scene),
            start,
            source,
            distance(extension.span.end_byte, start),
            extensions,
            places,
            j + 1,
            scopes,
            scene,
        )
    }
}

/// Whether extensions lie inside their source, one after another, at character
/// boundaries.
pub open spec fn composite_ordered(
    start: usize,
    source: Seq<char>,
    cursor: int,
    extensions: Seq<HirExpr>,
    places: Seq<int>,
    j: int,
) -> bool
    decreases places.len() - j,
{
    if j < 0 || j >= places.len() {
        true
    } else {
        let extension = extensions[places[j]];
        let from = distance(extension.span.start_byte, start);
        let to = distance(extension.span.end_byte, start);
        &&& cursor <= from <= to <= text::byte_len(source)
        &&& text::is_boundary(source, from)
        &&& text::is_boundary(source, to)
        &&& composite_ordered(start, source, to, extensions, places, j + 1)
    }
}

/// Whether everything that an expression refers to is there.
pub open spec fn expression_ready(e: HirExpr, scene: SceneView) -> bool
    decreases e,
{
    match e.kind {
        HirExprKind::Source(source) => true,
        HirExprKind::AwaitResultRef(slot) => match scene.task {
            Some(task) => c_source::placed(task, LogicalFieldId::AwaitResult(slot)),
            None => false,
        },
        HirExprKind::Composite { source, extensions } => {
            &&& e.span.start_byte + text::byte_len(source@) <= usize::MAX
            &&& composite_ordered(
                e.span.start_byte,
                source@,
                0,
                extensions@,
                extension_order(extensions@),
                0,
            )
            &&& expressions_ready(extensions@, scene)
        },
        HirExprKind::TaskRef { declaration, name } => true,
        HirExprKind::Call { function, arguments } => expression_ready(*function, scene)
            && expressions_ready(arguments@, scene),
        HirExprKind::AsyncCall { target, callee, arguments, result_type } => expressions_ready(
            arguments@,
            scene,
        ),
        HirExprKind::Binary { left, operator, right } => expression_ready(*left, scene)
            && expression_ready(*right, scene),
        HirExprKind::Conditional { condition, consequence, alternative } => expression_ready(
            *condition,
            scene,
        ) && expression_ready(*consequence, scene) && expression_ready(*alternative, scene),
        HirExprKind::Comma { left, right } => expression_ready(*left, scene) && expression_ready(
            *right,
            scene,
        ),
        HirExprKind::Assignment { left, operator, right } => expression_ready(*left, scene)
            && expression_ready(*right, scene),
        HirExprKind::Unary { operator, operand } => expression_ready(*operand, scene),
        HirExprKind::Await(operand) => expression_ready(*operand, scene),
        HirExprKind::Yield(value) => match value {
            Some(own) => expression_ready(*own, scene),
            None => true,
        },
    }
}

/// Whether everything that several expressions refer to is there.
pub open spec fn expressions_ready(list: Seq<HirExpr>, scene: SceneView) -> bool
    decreases list,
{
    forall|i: int| 0 <= i < list.len() ==> expression_ready(#[trigger] list[i], scene)
}

/// Whether all lifted declarations of a scene have a place.
pub open spec fn scene_ready(scene: SceneView) -> bool {
    c_source::fields_ready(scene.task, scene.fields)
}

fn find_static_stem<'a>(children: &Vec<&'a CChildPlan>, id: FunctionId) -> (r: Option<&'a str>)
    ensures
        match r {
            Some(stem) => static_stem(syntax::views(children@), id, children@.len() as int)
                == Some(stem@),
            None => static_stem(syntax::views(children@), id, children@.len() as int) is None,
        },
{
    let ghost views = syntax::views(children@);
    let mut n: usize = children.len();
    while n > 0
        invariant
            n <= children@.len(),
            views == syntax::views(children@),
            static_stem(views, id, children@.len() as int) == static_stem(views, id, n as int),
        decreases n,
    {
        let child: &'a CChildPlan = children[n - 1];
        assert(views[n - 1] == child@);
        if let CChildTarget::Static(callee) = &child.target {
            if callee.function == id {
                return Some(callee.stem.as_str());
            }
        }
        n -= 1;
    }
    None
}

/// Appends the name stem of a called function.
fn put_stem(out: &mut String, target: Option<FunctionId>, callee: &str, scene: &Scene<'_>)
    ensures
        final(out)@ == old(out)@ + stem_of(target, callee@, scene@),
{
    if let Some(id) = target {
        if let Some(stem) = find_static_stem(scene.children, id) {
            put(out, stem);
            return;
        }
    }
    let mut plain = String::new();
    assert(plain@ =~= Seq::empty());
    put2(&mut plain, c_identifier(scene.prefix).as_str(), c_identifier(callee).as_str());
    put(out, plain.as_str());
}

fn is_lifted(fields: &Vec<LiftedField>, declaration: crate::semantic::DeclarationId) -> (r: bool)
    ensures
        r == (storage_lifetimes::lifted_at(fields@, declaration, 0) is Some),
{
    let mut i: usize = 0;
    while i < fields.len()
        invariant
            i <= fields@.len(),
            storage_lifetimes::lifted_at(fields@, declaration, 0) == storage_lifetimes::lifted_at(
                fields@,
                declaration,
                i as int,
            ),
        decreases fields@.len() - i,
    {
        if fields[i].declaration == declaration {
            return true;
        }
        i += 1;
    }
    false
}

/// Renders an expression.
pub fn render_expression(e: &HirExpr, scopes: &Vec<ScopeId>, scene: &Scene<'_>) -> (r: String)
    requires
        scene_ready(scene@),
        expression_ready(*e, scene@),
    ensures
        r@ == expression_text(*e, scopes@, scene@),
    decreases e, 0int,
{
    let mut out = String::new();
    assert(out@ =~= Seq::empty());
    match &e.kind {
        HirExprKind::Source(source) => {
            return rewrite_source(
                source.as_str(),
                e.span.start_byte,
                scopes,
                scene.fields,
                scene.task,
            );
        },
        HirExprKind::AwaitResultRef(slot) => {
            if let Some(task) = scene.task {
                return required_access(&task, LogicalFieldId::AwaitResult(*slot));
            }
        },
        HirExprKind::Composite { source, extensions } => {
            return render_composite_expression(
                e.span.start_byte,
                source,
                extensions,
                scopes,
                scene,
            );
        },
        HirExprKind::TaskRef { declaration, name } => {
            if let Some(task) = scene.task {
                if is_lifted(scene.fields, *declaration) {
                    if let Some(access) = task.layout.access(
                        LogicalFieldId::Lifted(*declaration),
                        task.context,
                    ) {
                        proof {
                            reveal(c_source::path);
                        }
                        return access;
                    }
                }
            }
            return name.clone();
        },
        HirExprKind::Call { function, arguments } => {
            let callee = render_expression(function, scopes, scene);
            let list = render_arguments(arguments, scopes, scene);
            let mut text = callee;
            put3(&mut text, "(", list.as_str(), ")");
            return text;
        },
        HirExprKind::AsyncCall { target, callee, arguments, result_type } => {
            let mut stem = String::new();
            put_stem(&mut stem, *target, callee.as_str(), scene);
            assert(stem@ =~= stem_of(*target, callee@, scene@));
            let list = render_arguments(arguments, scopes, scene);
            put4(&mut out, stem.as_str(), "_into_awaitable(", stem.as_str(), "_create(");
            put2(
                &mut out,
                list.as_str(),
                if text::str_eq(list.as_str(), "") {
                    "NULL"
                } else {
                    ", NULL"
                },
            );
            put(&mut out, "))");
        },
        HirExprKind::Binary { left, operator, right } => {
            let first = render_expression(left, scopes, scene);
            let second = render_expression(right, scopes, scene);
            put5(&mut out, "(", first.as_str(), " ", operator.as_str(), " ");
            put2(&mut out, second.as_str(), ")");
        },
        HirExprKind::Conditional { condition, consequence, alternative } => {
            let first = render_expression(condition, scopes, scene);
            let second = render_expression(consequence, scopes, scene);
            let third = render_expression(alternative, scopes, scene);
            put5(&mut out, "(", first.as_str(), " ? ", second.as_str(), " : ");
            put2(&mut out, third.as_str(), ")");
        },
        HirExprKind::Comma { left, right } => {
            let first = render_expression(left, scopes, scene);
            let second = render_expression(right, scopes, scene);
            put5(&mut out, "(", first.as_str(), ", ", second.as_str(), ")");
        },
        HirExprKind::Assignment { left, operator, right } => {
            let first = render_expression(left, scopes, scene);
            let second = render_expression(right, scopes, scene);
            put5(&mut out, "(", first.as_str(), " ", operator.as_str(), " ");
            put2(&mut out, second.as_str(), ")");
        },
        HirExprKind::Unary { operator, operand } => {
            let first = render_expression(operand, scopes, scene);
            put4(&mut out, operator.as_str(), "(", first.as_str(), ")");
        },
        HirExprKind::Await(operand) => {
            return render_expression(operand, scopes, scene);
        },
        HirExprKind::Yield(value) => {
            if let Some(own) = value {
                return render_expression(own, scopes, scene);
            }
            proof {
                reveal_strlit("");
            }
            assert(out@ =~= ""@);
        },
    }
    out
}

/// Renders arguments, separated by commas.
pub fn render_arguments(list: &Vec<HirExpr>, scopes: &Vec<ScopeId>, scene: &Scene<'_>) -> (r:
    String)
    requires
        scene_ready(scene@),
        expressions_ready(list@, scene@),
    ensures
        r@ == arguments_text(list@, list@.len() as int, scopes@, scene@),
    decreases list, 1int,
{
    let mut out = String::new();
    assert(out@ =~= Seq::empty());
    let mut n: usize = 0;
    while n < list.len()
        invariant
            n <= list@.len(),
            scene_ready(scene@),
            expressions_ready(list@, scene@),
            out@ == arguments_text(list@, n as int, scopes@, scene@),
        decreases list@.len() - n,
    {
        assert(decreases_to!(list => list@));
        assert(decreases_to!(list@ => list@[n as int]));
        if n > 0 {
            put(&mut out, ", ");
        }
        let argument = render_expression(&list[n], scopes, scene);
        put(&mut out, argument.as_str());
        n += 1;
    }
    out
}

fn distance_to(a: usize, b: usize) -> (r: usize)
    ensures
        r == distance(a, b),
{
    if a >= b {
        a - b
    } else {
        0
    }
}

fn render_composite_expression(
    start: usize,
    source: &String,
    extensions: &Vec<HirExpr>,
    scopes: &Vec<ScopeId>,
    scene: &Scene<'_>,
) -> (r: String)
    requires
        scene_ready(scene@),
        expressions_ready(extensions@, scene@),
        start + text::byte_len(source@) <= usize::MAX,
        composite_ordered(
            start,
            source@,
            0,
            extensions@,
            extension_order(extensions@),
            0,
        ),
    ensures
        r@ == composite_text(
            Seq::empty(),
            start,
            source@,
            0,
            extensions@,
            extension_order(extensions@),
            0,
            scopes@,
            scene@,
        ),
    decreases extensions, 1int,
{
    let chars = chars_of(source.as_str());
    let mut keys: Vec<Vec<u64>> = Vec::new();
    let mut i: usize = 0;
    while i < extensions.len()
        invariant
            i <= extensions@.len(),
            syntax::views(keys@) =~= extension_keys(extensions@).take(i as int),
        decreases extensions@.len() - i,
    {
        let key: Vec<u64> = vec![extensions[i].span.start_byte as u64];
        assert(key@ =~= seq![extensions@[i as int].span.start_byte as u64]);
        proof {
            syntax::views_push(keys@, key);
        }
        keys.push(key);
        i += 1;
    }
    assert(syntax::views(keys@) =~= extension_keys(extensions@));
    let places = sort_order(&keys);
    let ghost goal = composite_text(
        Seq::empty(),
        start,
        source@,
        0,
        extensions@,
        order::positions(places@),
        0,
        scopes@,
        scene@,
    );
    let mut out = String::new();
    assert(out@ =~= Seq::empty());
    let mut cursor: usize = 0;
    let mut j: usize = 0;
    while j < places.len()
        invariant
            j <= places@.len(),
            chars@ == source@,
            order::positions(places@) == extension_order(extensions@),
            forall|k: int| 0 <= k < places@.len() ==> 0 <= #[trigger] places@[k] < extensions@.len(),
            scene_ready(scene@),
            expressions_ready(extensions@, scene@),
            cursor <= text::byte_len(source@),
            start + text::byte_len(source@) <= usize::MAX,
            composite_ordered(
                start,
                source@,
                cursor as int,
                extensions@,
                order::positions(places@),
                j as int,
            ),
            goal == composite_text(
                out@,
                start,
                source@,
                cursor as int,
                extensions@,
                order::positions(places@),
                j as int,
                scopes@,
                scene@,
            ),
        decreases places@.len() - j,
    {
        let k: usize = places[j];
        assert(decreases_to!(extensions => extensions@));
        assert(decreases_to!(extensions@ => extensions@[k as int]));
        let from = distance_to(extensions[k].span.start_byte, start);
        let to = distance_to(extensions[k].span.end_byte, start);
        let piece = slice_bytes(&chars, cursor, from);
        let plain = rewrite_source(
            piece.as_str(),
            start + cursor,
            scopes,
            scene.fields,
            scene.task,
        );
        let extension = render_expression(&extensions[k], scopes, scene);
        put2(&mut out, plain.as_str(), extension.as_str());
        cursor = to;
        j += 1;
    }
    let first = text::char_index(&chars, cursor);
    let rest = text::string_of(&chars, first, chars.len());
    assert(rest@ =~= source@.skip(text::chars_before(source@, cursor as int)));
    let plain = rewrite_source(rest.as_str(), start + cursor, scopes, scene.fields, scene.task);
    put(&mut out, plain.as_str());
    out
}

/// A value as C writes it.
pub open spec fn value_text(value: CfgValue, scopes: Seq<ScopeId>, scene: SceneView) -> Seq<char> {
    match value {
        CfgValue::Expression(expression) => expression_text(expression, scopes, scene),
        CfgValue::AwaitResult(slot) => c_source::path(
            scene.task->0,
            LogicalFieldId::AwaitResult(slot),
        ),
    }
}

/// Whether everything that a value refers to is there.
pub open spec fn value_ready(value: CfgValue, scene: SceneView) -> bool {
    match value {
        CfgValue::Expression(expression) => expression_ready(expression, scene),
        CfgValue::AwaitResult(slot) => match scene.task {
            Some(task) => c_source::placed(task, LogicalFieldId::AwaitResult(slot)),
            None => false,
        },
    }
}

/// Renders a value.
pub fn render_value(value: &CfgValue, scopes: &Vec<ScopeId>, scene: &Scene<'_>) -> (r: String)
    requires
        scene_ready(scene@),
        value_ready(*value, scene@),
    ensures
        r@ == value_text(*value, scopes@, scene@),
{
    match value {
        CfgValue::Expression(expression) => render_expression(expression, scopes, scene),
        CfgValue::AwaitResult(slot) => {
            if let Some(task) = scene.task {
                return required_access(&task, LogicalFieldId::AwaitResult(*slot));
            }
            String::new()
        },
    }
}

} // verus!
