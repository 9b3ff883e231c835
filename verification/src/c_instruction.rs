//! C code of single instructions.

use vstd::prelude::*;

use crate::c_expression;
use crate::c_expression::{render_expression, Scene, SceneView};
use crate::c_function_text;
use crate::c_function_text::{
    write_awaitable_binding, write_binding_init, write_binding_register, write_binding_release,
    write_cleanup_push, write_plain_cleanup_push,
};
use crate::c_runtime_text;
use crate::c_source;
use crate::c_source::{required_access, rewrite_source, TaskContext, TaskView};
use crate::c_static_plan::{
    CChildStorage, CChildTarget, CFunctionPlan, CalleeView, ChildPlanView, ChildTargetView,
    FunctionPlanView, StaticCallee,
};
use crate::c_suspend;
use crate::c_symbols;
use crate::c_symbols::{
    find_field, payload_name, run_name, write_arguments, CleanupHelper, HelperView,
};
use crate::context_layout::LogicalFieldId;
use crate::context_types;
use crate::context_types::{render_typed_name, DeclarationType};
use crate::control_flow::{CfgInstruction, CleanupId, CleanupRegistration};
use crate::identity_layout;
use crate::identity_layout::typed_binding_child;
use crate::liveness::{LiftedField, LivenessFunction};
use crate::order;
use crate::order::find_value;
use crate::semantic::{AwaitSlotId, DeclarationId, HirDeclaration, HirExpr, HirExprKind, ScopeId};
use crate::syntax;
use crate::syntax::{error_diagnostic, Diagnostic, DiagnosticView, SourceSpan};
use crate::text;
use crate::text::{concat2, concat3, contains, copied, number, put, put3, put4, put5, str_eq, trim};

verus! {

/// One function whose C code is written.
#[derive(Clone, Copy)]
pub struct FunctionScene<'a> {
    pub function: &'a LivenessFunction,
    pub plan: Option<&'a CFunctionPlan>,
    pub scene: Scene<'a>,
    pub declared: &'a Vec<(DeclarationId, DeclarationType<'a>)>,
    pub helpers: &'a Vec<(CleanupId, CleanupHelper<'a>)>,
    pub await_types: &'a Vec<(AwaitSlotId, String)>,
    pub stem: &'a str,
}

/// The contents of a function whose C code is written.
pub struct FunctionView {
    pub function: LivenessFunction,
    pub plan: Option<FunctionPlanView>,
    pub scene: SceneView,
    pub helpers: Seq<(CleanupId, HelperView)>,
    pub await_types: Seq<(AwaitSlotId, Seq<char>)>,
    pub stem: Seq<char>,
}

impl<'a> View for FunctionScene<'a> {
    type V = FunctionView;

    open spec fn view(&self) -> FunctionView {
        FunctionView {
            function: *self.function,
            plan: identity_layout::plan_view(self.plan),
            scene: self.scene@,
            helpers: order::entry_views(self.helpers@),
            await_types: order::entry_views(self.await_types@),
            stem: self.stem@,
        }
    }
}

/// Whether the parts of a scene belong to its function.
pub open spec fn consistent(scene: FunctionScene<'_>) -> bool {
    &&& scene.declared@ == context_types::declared_types(*scene.function)
    &&& scene.scene.fields@ == scene.function.lifted_fields@
}

/// C code and errors that were written so far.
pub struct Emitted {
    pub out: Seq<char>,
    pub problems: Seq<DiagnosticView>,
}

/// The same errors after other C code.
pub open spec fn with_code(emitted: Emitted, out: Seq<char>) -> Emitted {
    Emitted { out, problems: emitted.problems }
}

/// The same C code after one more error.
pub open spec fn with_problem(
    emitted: Emitted,
    code: Seq<char>,
    message: Seq<char>,
    span: SourceSpan,
) -> Emitted {
    Emitted {
        out: emitted.out,
        problems: emitted.problems.push(syntax::error_view(code, message, span)),
    }
}

/// C code and errors together.
pub open spec fn emitted_of(out: String, problems: Vec<Diagnostic>) -> Emitted {
    Emitted { out: out@, problems: syntax::views(problems@) }
}

/// Adds an error.
pub fn report(problems: &mut Vec<Diagnostic>, code: &'static str, message: &str, span: &SourceSpan)
    ensures
        syntax::views(final(problems)@) == syntax::views(old(problems)@).push(
            syntax::error_view(code@, message@, *span),
        ),
{
    let problem = error_diagnostic(code, message, span);
    proof {
        syntax::views_push(problems@, problem);
    }
    problems.push(problem);
}

/// Whether the fields that a context of the function has without fail have
/// places.
pub open spec fn task_ready(task: TaskView, view: FunctionView) -> bool {
    let fields = view.function.lifted_fields@;
    &&& c_runtime_text::values_placed(task)
    &&& c_source::lifted_placed(task, fields)
    &&& forall|i: int|
        0 <= i < fields.len() && (#[trigger] fields[i]).is_task ==> c_function_text::binding_placed(
            task,
            fields[i].declaration,
        )
    &&& match view.plan {
        Some(plan) => children_placed(task, plan),
        None => true,
    }
}

/// Whether a child is awaited directly and has storage of its type.
pub open spec fn direct_typed(child: ChildPlanView) -> bool {
    identity_layout::typed_static(child) && child.origin is Direct
}

/// Whether the fields of directly awaited children have places.
pub open spec fn children_placed(task: TaskView, plan: FunctionPlanView) -> bool {
    forall|i: int|
        0 <= i < plan.children.len() && direct_typed((#[trigger] plan.children[i]).1)
            ==> c_suspend::child_placed(task, plan.children[i].1.instance)
}

/// Whether a function with a context has all its fields placed.
pub open spec fn function_ready(view: FunctionView) -> bool {
    &&& c_expression::scene_ready(view.scene)
    &&& match view.scene.task {
        Some(task) => task_ready(task, view),
        None => true,
    }
}

/// Where a value is assigned to.
pub open spec fn target_text(view: FunctionView, id: DeclarationId) -> Seq<char> {
    match (c_symbols::symbol_field(view.scene.fields, id), view.scene.task) {
        (Some(field), Some(task)) => c_source::path(task, LogicalFieldId::Lifted(id)),
        _ => c_symbols::symbol_name(view.function, id),
    }
}

fn render_target(scene: &FunctionScene<'_>, id: DeclarationId) -> (r: String)
    requires
        consistent(*scene),
        function_ready(scene@),
    ensures
        r@ == target_text(scene@, id),
{
    if let Some(field) = find_field(scene.scene.fields, id) {
        if let Some(task) = scene.scene.task {
            assert(c_source::placed(task@, LogicalFieldId::Lifted(field.declaration)));
            return required_access(&task, LogicalFieldId::Lifted(id));
        }
    }
    match find_value(scene.declared, id) {
        Some(declaration) => copied(declaration.name.as_str()),
        None => copied("cr_missing_value"),
    }
}

/// The type of a value, unless it is none.
pub open spec fn has_value(ty: Seq<char>) -> bool {
    text::trimmed(ty) != "void"@
}

/// C code that starts and binds a typed task.
pub open spec fn typed_binding_text(
    emitted: Emitted,
    view: FunctionView,
    scopes: Seq<ScopeId>,
    declaration: HirDeclaration,
    field: LiftedField,
    callee: CalleeView,
    embedded: bool,
    task: TaskView,
) -> Emitted {
    match declaration.initializer {
        Some(HirExpr { kind: HirExprKind::AsyncCall { target, callee: name, arguments, result_type }, span }) => {
            let number = text::dec(declaration.id.0 as nat);
            let temporary = "cr_binding_"@ + number + "_arg_"@;
            let out = c_function_text::binding_release_text(
                emitted.out,
                task,
                declaration.id,
                callee.stem,
                embedded,
            );
            let out = c_symbols::argument_lines(
                out,
                "    "@,
                temporary,
                arguments@,
                callee.parameters,
                scopes,
                view.scene,
                arguments@.len() as int,
            );
            let passed = c_symbols::passed_arguments(
                temporary,
                arguments@,
                callee.parameters,
                scopes,
                view.scene,
                arguments@.len() as int,
            );
            let out = c_function_text::binding_init_text(
                out,
                task,
                declaration.id,
                number,
                callee.stem,
                embedded,
                passed,
            );
            let out = c_function_text::binding_register_text(
                out,
                task,
                declaration.id,
                number,
                text::dec(declaration.scope.0 as nat),
                view.stem,
                field.field_name@,
            );
            with_code(emitted, out)
        },
        _ => with_problem(
            emitted,
            "CRC5007"@,
            "embedded task binding has no static async initializer"@,
            declaration.span,
        ),
    }
}

/// The type that a declaration of a plain function is written with.
pub open spec fn declared_type(declaration: HirDeclaration) -> Seq<char> {
    if declaration.is_task {
        "cr_awaitable"@
    } else {
        text::trimmed(declaration.ty.text@)
    }
}

/// C code that gives a declaration in the context its value.
pub open spec fn lifted_declaration_text(
    out: Seq<char>,
    view: FunctionView,
    declaration: HirDeclaration,
    field: LiftedField,
    initializer: Seq<char>,
    task: TaskView,
) -> Seq<char> {
    let target = c_source::path(task, LogicalFieldId::Lifted(declaration.id));
    if field.is_task {
        let ty = text::trimmed(declaration.ty.text@);
        c_function_text::binding_register_text(
            c_function_text::awaitable_binding_text(
                out,
                task,
                declaration.id,
                initializer,
                has_value(ty),
                text::trimmed(ty),
            ),
            task,
            declaration.id,
            text::dec(declaration.id.0 as nat),
            text::dec(declaration.scope.0 as nat),
            view.stem,
            field.field_name@,
        )
    } else if text::occurs(field.ty.text@, "["@) {
        out + "    memcpy("@ + target + ", ("@ + text::trimmed(field.ty.text@) + ")"@ + initializer
            + ", sizeof("@ + target + "));\n"@
    } else {
        out + "    "@ + target + " = "@ + initializer + ";\n"@
    }
}

/// C code of a declaration without a typed task.
pub open spec fn plain_declaration_text(
    out: Seq<char>,
    view: FunctionView,
    scopes: Seq<ScopeId>,
    declaration: HirDeclaration,
) -> Seq<char> {
    let field = c_symbols::symbol_field(view.scene.fields, declaration.id);
    match (field, view.scene.task, declaration.initializer) {
        (Some(own), Some(task), Some(initializer)) => lifted_declaration_text(
            out,
            view,
            declaration,
            own,
            c_expression::expression_text(initializer, scopes, view.scene),
            task,
        ),
        (Some(own), _, _) => out,
        (None, _, Some(initializer)) => out + "    "@ + context_types::declarator(
            declared_type(declaration),
            declaration.name@,
        ) + " = "@ + c_expression::expression_text(initializer, scopes, view.scene) + ";\n"@,
        (None, _, None) => out + "    "@ + context_types::declarator(
            declared_type(declaration),
            declaration.name@,
        ) + ";\n"@,
    }
}

/// C code of a declaration.
pub open spec fn declaration_text(
    emitted: Emitted,
    view: FunctionView,
    scopes: Seq<ScopeId>,
    declaration: HirDeclaration,
) -> Emitted {
    let field = c_symbols::symbol_field(view.scene.fields, declaration.id);
    match identity_layout::planned_binding(view.plan, declaration.id) {
        Some(child) => match (field, view.scene.task, child.target) {
            (Some(own), Some(task), ChildTargetView::Static(callee)) => if own.is_task {
                typed_binding_text(
                    emitted,
                    view,
                    scopes,
                    declaration,
                    own,
                    callee,
                    child.effective_storage is Embedded,
                    task,
                )
            } else {
                with_problem(
                    emitted,
                    "CRC6009"@,
                    "planned static task binding reached dynamic C emission"@,
                    declaration.span,
                )
            },
            _ => with_problem(
                emitted,
                "CRC6009"@,
                "planned static task binding reached dynamic C emission"@,
                declaration.span,
            ),
        },
        None => with_code(
            emitted,
            plain_declaration_text(emitted.out, view, scopes, declaration),
        ),
    }
}

fn write_typed_binding_declaration(
    out: &mut String,
    problems: &mut Vec<Diagnostic>,
    scene: &FunctionScene<'_>,
    scopes: &Vec<ScopeId>,
    declaration: &HirDeclaration,
    field: &LiftedField,
    callee: &StaticCallee,
    embedded: bool,
    task: &TaskContext<'_>,
)
    requires
        consistent(*scene),
        function_ready(scene@),
        c_runtime_text::values_placed(task@),
        c_function_text::binding_placed(task@, declaration.id),
        match declaration.initializer {
            Some(initializer) => c_expression::expression_ready(initializer, scene@.scene),
            None => true,
        },
    ensures
        emitted_of(*final(out), *final(problems)) == typed_binding_text(
            emitted_of(*old(out), *old(problems)),
            scene@,
            scopes@,
            *declaration,
            *field,
            callee@,
            embedded,
            task@,
        ),
{
    if let Some(initializer) = &declaration.initializer {
        if let HirExprKind::AsyncCall { target, callee: name, arguments, result_type } =
            &initializer.kind {
            let id = number(declaration.id.0 as u64);
            let scope = number(declaration.scope.0 as u64);
            let temporary = concat3("cr_binding_", id.as_str(), "_arg_");
            write_binding_release(out, task, declaration.id, callee.stem.as_str(), embedded);
            let passed = write_arguments(
                out,
                "    ",
                temporary.as_str(),
                arguments,
                &callee.parameters,
                scopes,
                &scene.scene,
            );
            write_binding_init(
                out,
                task,
                declaration.id,
                id.as_str(),
                callee.stem.as_str(),
                embedded,
                passed.as_str(),
            );
            write_binding_register(
                out,
                task,
                declaration.id,
                id.as_str(),
                scope.as_str(),
                scene.stem,
                field.field_name.as_str(),
            );
            return;
        }
    }
    report(
        problems,
        "CRC5007",
        "embedded task binding has no static async initializer",
        &declaration.span,
    );
}

fn write_lifted_declaration(
    out: &mut String,
    scene: &FunctionScene<'_>,
    declaration: &HirDeclaration,
    field: &LiftedField,
    initializer: &str,
    task: &TaskContext<'_>,
)
    requires
        consistent(*scene),
        c_runtime_text::header_placed(task@),
        c_source::placed(task@, LogicalFieldId::Lifted(declaration.id)),
        field.is_task ==> c_function_text::binding_placed(task@, declaration.id),
    ensures
        final(out)@ == lifted_declaration_text(
            old(out)@,
            scene@,
            *declaration,
            *field,
            initializer@,
            task@,
        ),
{
    if field.is_task {
        let ty = trim(declaration.ty.text.as_str());
        let id = number(declaration.id.0 as u64);
        let scope = number(declaration.scope.0 as u64);
        let expected = trim(ty);
        write_awaitable_binding(
            out,
            task,
            declaration.id,
            initializer,
            !str_eq(expected, "void"),
            expected,
        );
        write_binding_register(
            out,
            task,
            declaration.id,
            id.as_str(),
            scope.as_str(),
            scene.stem,
            field.field_name.as_str(),
        );
        return;
    }
    let target = required_access(task, LogicalFieldId::Lifted(declaration.id));
    if contains(field.ty.text.as_str(), "[") {
        put5(
            out,
            "    memcpy(",
            target.as_str(),
            ", (",
            trim(field.ty.text.as_str()),
            ")",
        );
        put4(out, initializer, ", sizeof(", target.as_str(), "));\n");
    } else {
        put5(out, "    ", target.as_str(), " = ", initializer, ";\n");
    }
}

fn write_plain_declaration(
    out: &mut String,
    scene: &FunctionScene<'_>,
    scopes: &Vec<ScopeId>,
    declaration: &HirDeclaration,
)
    requires
        consistent(*scene),
        function_ready(scene@),
        match declaration.initializer {
            Some(initializer) => c_expression::expression_ready(initializer, scene@.scene),
            None => true,
        },
    ensures
        final(out)@ == plain_declaration_text(old(out)@, scene@, scopes@, *declaration),
{
    if let Some(field) = find_field(scene.scene.fields, declaration.id) {
        if let Some(task) = scene.scene.task {
            if let Some(expression) = &declaration.initializer {
                let initializer = render_expression(expression, scopes, &scene.scene);
                assert(c_source::placed(task@, LogicalFieldId::Lifted(field.declaration)));
                write_lifted_declaration(
                    out,
                    scene,
                    declaration,
                    field,
                    initializer.as_str(),
                    &task,
                );
            }
        }
        return;
    }
    let ty = if declaration.is_task {
        "cr_awaitable"
    } else {
        trim(declaration.ty.text.as_str())
    };
    let declared = render_typed_name(ty, declaration.name.as_str());
    match &declaration.initializer {
        Some(expression) => {
            let initializer = render_expression(expression, scopes, &scene.scene);
            put5(out, "    ", declared.as_str(), " = ", initializer.as_str(), ";\n");
        },
        None => {
            put3(out, "    ", declared.as_str(), ";\n");
        },
    }
}

fn write_declaration(
    out: &mut String,
    problems: &mut Vec<Diagnostic>,
    scene: &FunctionScene<'_>,
    scopes: &Vec<ScopeId>,
    declaration: &HirDeclaration,
)
    requires
        consistent(*scene),
        function_ready(scene@),
        match declaration.initializer {
            Some(initializer) => c_expression::expression_ready(initializer, scene@.scene),
            None => true,
        },
    ensures
        emitted_of(*final(out), *final(problems)) == declaration_text(
            emitted_of(*old(out), *old(problems)),
            scene@,
            scopes@,
            *declaration,
        ),
{
    match typed_binding_child(scene.plan, declaration.id) {
        Some(child) => {
            if let Some(field) = find_field(scene.scene.fields, declaration.id) {
                if let Some(task) = scene.scene.task {
                    if let CChildTarget::Static(callee) = &child.target {
                        if field.is_task {
                            let embedded = matches!(
                                child.effective_storage,
                                CChildStorage::Embedded(_)
                            );
                            write_typed_binding_declaration(
                                out,
                                problems,
                                scene,
                                scopes,
                                declaration,
                                field,
                                callee,
                                embedded,
                                &task,
                            );
                            return;
                        }
                    }
                }
            }
            report(
                problems,
                "CRC6009",
                "planned static task binding reached dynamic C emission",
                &declaration.span,
            );
        },
        None => {
            write_plain_declaration(out, scene, scopes, declaration);
        },
    }
}

/// The first `n` values that a deferred call keeps.
pub open spec fn payload_values(
    out: Seq<char>,
    view: FunctionView,
    scopes: Seq<ScopeId>,
    arguments: Seq<HirExpr>,
    n: int,
) -> Seq<char>
    decreases n,
{
    if n <= 0 {
        out
    } else {
        payload_values(out, view, scopes, arguments, n - 1) + "        "@
            + c_expression::expression_text(arguments[n - 1], scopes, view.scene) + if n
            == arguments.len() {
            "\n"@
        } else {
            ",\n"@
        }
    }
}

/// C code that registers a deferred call.
pub open spec fn push_text(
    out: Seq<char>,
    view: FunctionView,
    scopes: Seq<ScopeId>,
    registration: CleanupRegistration,
) -> Seq<char> {
    match order::lookup(view.helpers, registration.id) {
        None => out,
        Some(helper) => {
            let payload = "cr_payload_"@ + text::dec(registration.id.0 as nat);
            let scope = text::dec(registration.scope.0 as nat);
            let run = c_symbols::run_function(view.stem, registration.id);
            let out = out + "    "@ + c_symbols::payload_type(view.stem, registration.id) + " "@
                + payload + " = {\n"@;
            let out = if helper.types.len() == 0 {
                out + "        0\n"@
            } else {
                payload_values(
                    out,
                    view,
                    scopes,
                    registration.arguments@,
                    registration.arguments@.len() as int,
                )
            };
            let out = out + "    };\n"@;
            match view.scene.task {
                Some(task) => c_function_text::cleanup_push_text(out, task, payload, scope, run),
                None => c_function_text::plain_cleanup_push_text(out, payload, scope, run),
            }
        },
    }
}

fn write_push(
    out: &mut String,
    scene: &FunctionScene<'_>,
    scopes: &Vec<ScopeId>,
    registration: &CleanupRegistration,
)
    requires
        consistent(*scene),
        function_ready(scene@),
        c_expression::expressions_ready(registration.arguments@, scene@.scene),
    ensures
        final(out)@ == push_text(old(out)@, scene@, scopes@, *registration),
{
    proof {
        order::lookup_views(scene.helpers@, registration.id);
    }
    let helper = match find_value(scene.helpers, registration.id) {
        Some(helper) => helper,
        None => {
            return;
        },
    };
    let payload = concat2("cr_payload_", number(registration.id.0 as u64).as_str());
    let scope = number(registration.scope.0 as u64);
    let run = run_name(scene.stem, registration.id);
    let kept = payload_name(scene.stem, registration.id);
    put5(out, "    ", kept.as_str(), " ", payload.as_str(), " = {\n");
    if helper.argument_types.len() == 0 {
        put(out, "        0\n");
    } else {
        let ghost start = out@;
        let mut n: usize = 0;
        while n < registration.arguments.len()
            invariant
                n <= registration.arguments@.len(),
                consistent(*scene),
                function_ready(scene@),
                c_expression::expressions_ready(registration.arguments@, scene@.scene),
                out@ == payload_values(
                    start,
                    scene@,
                    scopes@,
                    registration.arguments@,
                    n as int,
                ),
            decreases registration.arguments@.len() - n,
        {
            let argument = render_expression(&registration.arguments[n], scopes, &scene.scene);
            n += 1;
            put3(
                out,
                "        ",
                argument.as_str(),
                if n == registration.arguments.len() {
                    "\n"
                } else {
                    ",\n"
                },
            );
        }
    }
    put(out, "    };\n");
    match scene.scene.task {
        Some(task) => {
            write_cleanup_push(out, &task, payload.as_str(), scope.as_str(), run.as_str());
        },
        None => {
            write_plain_cleanup_push(out, payload.as_str(), scope.as_str(), run.as_str());
        },
    }
}

/// The stack that deferred calls are kept on.
pub open spec fn stack_text(view: FunctionView) -> Seq<char> {
    match view.scene.task {
        Some(task) => "&"@ + c_source::path(task, LogicalFieldId::Cleanups),
        None => "&cr_cleanups"@,
    }
}

/// C code that makes the deferred calls of the first `n` scopes.
pub open spec fn run_text(
    out: Seq<char>,
    view: FunctionView,
    scopes: Seq<ScopeId>,
    n: int,
) -> Seq<char>
    decreases n,
{
    if n <= 0 {
        out
    } else {
        run_text(out, view, scopes, n - 1) + "    cr_cleanup_run_scope("@ + stack_text(view)
            + ", "@ + text::dec(scopes[n - 1].0 as nat) + "u);\n"@
    }
}

fn write_run(out: &mut String, scene: &FunctionScene<'_>, scopes: &Vec<ScopeId>)
    requires
        function_ready(scene@),
    ensures
        final(out)@ == run_text(old(out)@, scene@, scopes@, scopes@.len() as int),
{
    let stack = match scene.scene.task {
        Some(task) => concat2("&", required_access(&task, LogicalFieldId::Cleanups).as_str()),
        None => copied("&cr_cleanups"),
    };
    let ghost start = out@;
    let mut n: usize = 0;
    while n < scopes.len()
        invariant
            n <= scopes@.len(),
            stack@ == stack_text(scene@),
            out@ == run_text(start, scene@, scopes@, n as int),
        decreases scopes@.len() - n,
    {
        let scope = number(scopes[n].0 as u64);
        put5(out, "    cr_cleanup_run_scope(", stack.as_str(), ", ", scope.as_str(), "u);\n");
        n += 1;
    }
}

/// C code of one instruction.
pub open spec fn instruction_text(
    emitted: Emitted,
    view: FunctionView,
    scopes: Seq<ScopeId>,
    instruction: CfgInstruction,
) -> Emitted {
    match instruction {
        CfgInstruction::Source(fragment) => with_code(
            emitted,
            emitted.out + "    "@ + c_source::rewritten(
                fragment.text@,
                fragment.span.start_byte as nat,
                scopes,
                view.scene.fields,
                view.scene.task,
            ) + "\n"@,
        ),
        CfgInstruction::Declaration(declaration) => declaration_text(
            emitted,
            view,
            scopes,
            declaration,
        ),
        CfgInstruction::AssignAwaitResult { destination, slot, span } => with_code(
            emitted,
            emitted.out + "    "@ + target_text(view, destination) + " = "@ + c_source::path(
                view.scene.task->0,
                LogicalFieldId::AwaitResult(slot),
            ) + ";\n"@,
        ),
        CfgInstruction::AssignExpression { destination, expression, span } => with_code(
            emitted,
            emitted.out + "    "@ + target_text(view, destination) + " = "@
                + c_expression::expression_text(expression, scopes, view.scene) + ";\n"@,
        ),
        CfgInstruction::AssignExpressionSlot { slot, ty, expression, span } => match view.scene.task {
            None => with_problem(
                emitted,
                "CRC5006"@,
                "persistent expression slot reached synchronous emission"@,
                expression.span,
            ),
            Some(task) => with_code(
                emitted,
                emitted.out + "    "@ + c_source::path(task, LogicalFieldId::AwaitResult(slot))
                    + " = "@ + c_expression::expression_text(expression, scopes, view.scene)
                    + ";\n"@,
            ),
        },
        CfgInstruction::Evaluate(expression) => with_code(
            emitted,
            emitted.out + "    "@ + c_expression::expression_text(expression, scopes, view.scene)
                + ";\n"@,
        ),
        CfgInstruction::RegisterDefer(defer) => with_problem(
            emitted,
            "CRC5002"@,
            "unlowered defer reached C emission"@,
            defer.span,
        ),
        CfgInstruction::PushCleanup(registration) => with_code(
            emitted,
            push_text(emitted.out, view, scopes, registration),
        ),
        CfgInstruction::RunCleanups { exited_scopes } => with_code(
            emitted,
            run_text(emitted.out, view, exited_scopes@, exited_scopes@.len() as int),
        ),
    }
}

/// Whether a result has a place.
pub open spec fn result_ready(scene: SceneView, slot: AwaitSlotId) -> bool {
    match scene.task {
        Some(task) => c_source::placed(task, LogicalFieldId::AwaitResult(slot)),
        None => false,
    }
}

/// Whether everything that an instruction refers to is there.
pub open spec fn instruction_ready(instruction: CfgInstruction, scene: SceneView) -> bool {
    match instruction {
        CfgInstruction::Source(fragment) => true,
        CfgInstruction::Declaration(declaration) => match declaration.initializer {
            Some(initializer) => c_expression::expression_ready(initializer, scene),
            None => true,
        },
        CfgInstruction::AssignAwaitResult { destination, slot, span } => result_ready(scene, slot),
        CfgInstruction::AssignExpression {
            destination,
            expression,
            span,
        } => c_expression::expression_ready(expression, scene),
        CfgInstruction::AssignExpressionSlot { slot, ty, expression, span } => scene.task is Some
            ==> result_ready(scene, slot) && c_expression::expression_ready(expression, scene),
        CfgInstruction::Evaluate(expression) => c_expression::expression_ready(expression, scene),
        CfgInstruction::RegisterDefer(defer) => true,
        CfgInstruction::PushCleanup(registration) => c_expression::expressions_ready(
            registration.arguments@,
            scene,
        ),
        CfgInstruction::RunCleanups { exited_scopes } => true,
    }
}

/// Appends the C code of one instruction.
pub fn write_instruction(
    out: &mut String,
    problems: &mut Vec<Diagnostic>,
    scene: &FunctionScene<'_>,
    scopes: &Vec<ScopeId>,
    instruction: &CfgInstruction,
)
    requires
        consistent(*scene),
        function_ready(scene@),
        instruction_ready(*instruction, scene@.scene),
    ensures
        emitted_of(*final(out), *final(problems)) == instruction_text(
            emitted_of(*old(out), *old(problems)),
            scene@,
            scopes@,
            *instruction,
        ),
{
    match instruction {
        CfgInstruction::Source(fragment) => {
            let source = rewrite_source(
                fragment.text.as_str(),
                fragment.span.start_byte,
                scopes,
                scene.scene.fields,
                scene.scene.task,
            );
            put3(out, "    ", source.as_str(), "\n");
        },
        CfgInstruction::Declaration(declaration) => {
            write_declaration(out, problems, scene, scopes, declaration);
        },
        CfgInstruction::AssignAwaitResult { destination, slot, span } => {
            if let Some(task) = scene.scene.task {
                let target = render_target(scene, *destination);
                let result = required_access(&task, LogicalFieldId::AwaitResult(*slot));
                put5(out, "    ", target.as_str(), " = ", result.as_str(), ";\n");
            }
        },
        CfgInstruction::AssignExpression { destination, expression, span } => {
            let target = render_target(scene, *destination);
            let value = render_expression(expression, scopes, &scene.scene);
            put5(out, "    ", target.as_str(), " = ", value.as_str(), ";\n");
        },
        CfgInstruction::AssignExpressionSlot { slot, ty, expression, span } => {
            match scene.scene.task {
                None => {
                    report(
                        problems,
                        "CRC5006",
                        "persistent expression slot reached synchronous emission",
                        &expression.span,
                    );
                },
                Some(task) => {
                    let value = render_expression(expression, scopes, &scene.scene);
                    let target = required_access(&task, LogicalFieldId::AwaitResult(*slot));
                    put5(out, "    ", target.as_str(), " = ", value.as_str(), ";\n");
                },
            }
        },
        CfgInstruction::Evaluate(expression) => {
            let value = render_expression(expression, scopes, &scene.scene);
            put3(out, "    ", value.as_str(), ";\n");
        },
        CfgInstruction::RegisterDefer(defer) => {
            report(problems, "CRC5002", "unlowered defer reached C emission", &defer.span);
        },
        CfgInstruction::PushCleanup(registration) => {
            write_push(out, scene, scopes, registration);
        },
        CfgInstruction::RunCleanups { exited_scopes } => {
            write_run(out, scene, exited_scopes);
        },
    }
}

} // verus!
