//! What declarations do when they run.

use vstd::prelude::*;

use crate::binding_laws;
use crate::c_expression;
use crate::c_instruction;
use crate::c_instruction::{Emitted, FunctionView};
use crate::c_meaning;
use crate::c_meaning::{Datum, Exit, Machine, Place, Run, Statement, Value, World};
use crate::c_source;
use crate::c_source::TaskView;
use crate::c_static_plan::{ChildPlanView, ChildTargetView};
use crate::c_symbols;
use crate::context_layout::LogicalFieldId;
use crate::context_types;
use crate::identity_layout;
use crate::instruction_laws;
use crate::liveness::LiftedField;
use crate::semantic::{HirDeclaration, HirExpr, HirExprKind, ScopeId};
use crate::text;
use crate::wait_code;
use crate::wait_text_laws;

verus! {

/// The arguments of the call that a declaration is initialized with.
pub open spec fn initial_arguments(declaration: HirDeclaration) -> Seq<HirExpr> {
    match declaration.initializer {
        Some(HirExpr { kind: HirExprKind::AsyncCall { target, callee, arguments, result_type }, span }) => arguments@,
        _ => Seq::empty(),
    }
}

/// Whether a declaration is initialized with a call that gives a task.
pub open spec fn calls_task(declaration: HirDeclaration) -> bool {
    declaration.initializer matches Some(e) && e.kind is AsyncCall
}

/// Code that binds a task of a known function to a declaration: the one before
/// ends, the arguments are worth what they are worth, the task starts, and its
/// cleanup is kept.
pub open spec fn typed_code(
    view: FunctionView,
    scopes: Seq<ScopeId>,
    declaration: HirDeclaration,
    field: LiftedField,
    callee: crate::c_static_plan::CalleeView,
    embedded: bool,
    task: TaskView,
) -> Statement {
    let number = text::dec(declaration.id.0 as nat);
    let name = "cr_binding_"@ + number + "_arg_"@;
    let arguments = initial_arguments(declaration);
    let n = arguments.len() as int;
    c_meaning::both(
        binding_laws::rebind_code(declaration.id, callee.stem, embedded),
        c_meaning::both(
            wait_code::argument_code(name, arguments, callee.parameters, scopes, view.scene, n),
            c_meaning::both(
                binding_laws::launch_code(
                    declaration.id,
                    number,
                    callee.stem,
                    embedded,
                    c_symbols::passed_arguments(
                        name,
                        arguments,
                        callee.parameters,
                        scopes,
                        view.scene,
                        n,
                    ),
                ),
                binding_laws::register_code(
                    task,
                    declaration.id,
                    number,
                    text::dec(declaration.scope.0 as nat),
                    view.stem + "_"@ + field.field_name@,
                ),
            ),
        ),
    )
}

/// A lifted declaration of a task that was planned to be of a known function
/// binds that task. It adds no error.
pub proof fn typed_declarations_bind_tasks(
    emitted: Emitted,
    view: FunctionView,
    scopes: Seq<ScopeId>,
    declaration: HirDeclaration,
    field: LiftedField,
    child: ChildPlanView,
    callee: crate::c_static_plan::CalleeView,
    task: TaskView,
)
    requires
        identity_layout::planned_binding(view.plan, declaration.id) == Some(child),
        child.target == ChildTargetView::Static(callee),
        c_symbols::symbol_field(view.scene.fields, declaration.id) == Some(field),
        field.is_task,
        view.scene.task == Some(task),
        calls_task(declaration),
    ensures
        ({
            let after = c_instruction::declaration_text(emitted, view, scopes, declaration);
            &&& after.problems == emitted.problems
            &&& c_meaning::same(
                after.out,
                c_meaning::written(
                    emitted.out,
                    typed_code(
                        view,
                        scopes,
                        declaration,
                        field,
                        callee,
                        child.effective_storage is Embedded,
                        task,
                    ),
                    task,
                    "    "@,
                ),
            )
        }),
{
    broadcast use c_meaning::written_then;

    let embedded = child.effective_storage is Embedded;
    let number = text::dec(declaration.id.0 as nat);
    let name = "cr_binding_"@ + number + "_arg_"@;
    let arguments = initial_arguments(declaration);
    let n = arguments.len() as int;
    let passed = c_symbols::passed_arguments(
        name,
        arguments,
        callee.parameters,
        scopes,
        view.scene,
        n,
    );
    binding_laws::rebinding_is_written(emitted.out, task, declaration.id, callee.stem, embedded);
    let w1 = c_meaning::written(
        emitted.out,
        binding_laws::rebind_code(declaration.id, callee.stem, embedded),
        task,
        "    "@,
    );
    wait_text_laws::arguments_are_written(
        w1,
        "    "@,
        task,
        name,
        arguments,
        callee.parameters,
        scopes,
        view.scene,
        n,
    );
    let w2 = c_meaning::written(
        w1,
        wait_code::argument_code(name, arguments, callee.parameters, scopes, view.scene, n),
        task,
        "    "@,
    );
    binding_laws::launching_is_written(
        w2,
        task,
        declaration.id,
        number,
        callee.stem,
        embedded,
        passed,
    );
    let w3 = c_meaning::written(
        w2,
        binding_laws::launch_code(declaration.id, number, callee.stem, embedded, passed),
        task,
        "    "@,
    );
    binding_laws::registering_is_written(
        w3,
        task,
        declaration.id,
        number,
        text::dec(declaration.scope.0 as nat),
        view.stem,
        field.field_name@,
    );
}

/// What a declaration does that isn't planned to bind a task of a known
/// function: a lifted one stores its value in the context, or binds it there if
/// it is an awaitable, or copies it there if it is an array; another one is a
/// variable with its value.
pub open spec fn plain_code(
    view: FunctionView,
    scopes: Seq<ScopeId>,
    declaration: HirDeclaration,
    task: TaskView,
) -> Statement {
    let shown = match declaration.initializer {
        Some(initializer) => c_expression::expression_text(initializer, scopes, view.scene),
        None => ""@,
    };
    match (
        c_symbols::symbol_field(view.scene.fields, declaration.id),
        view.scene.task,
        declaration.initializer,
    ) {
        (Some(field), Some(own), Some(initializer)) => if field.is_task {
            let ty = text::trimmed(text::trimmed(declaration.ty.text@));
            c_meaning::both(
                binding_laws::bind_code(task, declaration.id, shown, ty != "void"@, ty),
                binding_laws::register_code(
                    task,
                    declaration.id,
                    text::dec(declaration.id.0 as nat),
                    text::dec(declaration.scope.0 as nat),
                    view.stem + "_"@ + field.field_name@,
                ),
            )
        } else if text::occurs(field.ty.text@, "["@) {
            Statement::Call(
                "memcpy"@,
                Value::Read(Place::Own(LogicalFieldId::Lifted(declaration.id))),
                ", ("@ + text::trimmed(field.ty.text@) + ")"@ + shown + ", sizeof("@
                    + c_source::path(task, LogicalFieldId::Lifted(declaration.id)) + ")"@,
            )
        } else {
            Statement::Store(
                Place::Own(LogicalFieldId::Lifted(declaration.id)),
                Value::Text(shown),
            )
        },
        (Some(field), _, _) => Statement::Nothing,
        (None, _, Some(initializer)) => Statement::Declare(
            context_types::declarator(
                c_instruction::declared_type(declaration),
                declaration.name@,
            ),
            declaration.name@,
            Value::Text(shown),
        ),
        (None, _, None) => Statement::Evaluate(
            context_types::declarator(
                c_instruction::declared_type(declaration),
                declaration.name@,
            ),
        ),
    }
}

proof fn copy_is_written(
    out: Seq<char>,
    task: TaskView,
    field: LogicalFieldId,
    ty: Seq<char>,
    shown: Seq<char>,
)
    ensures
        ({
            let target = c_source::path(task, field);
            c_meaning::same(
                out + "    memcpy("@ + target + ", ("@ + ty + ")"@ + shown + ", sizeof("@ + target
                    + "));\n"@,
                c_meaning::written(
                    out,
                    Statement::Call(
                        "memcpy"@,
                        Value::Read(Place::Own(field)),
                        ", ("@ + ty + ")"@ + shown + ", sizeof("@ + target + ")"@,
                    ),
                    task,
                    "    "@,
                ),
            )
        }),
{
    broadcast use c_meaning::joined;

    assert("    memcpy("@ == "    "@ + "memcpy"@ + "("@) by {
        reveal_strlit("    memcpy(");
        reveal_strlit("    ");
        reveal_strlit("memcpy");
        reveal_strlit("(");
        assert("    memcpy("@ =~= "    "@ + "memcpy"@ + "("@);
    }
    assert("));\n"@ == ")"@ + ")"@ + ";\n"@) by {
        reveal_strlit("));\n");
        reveal_strlit(")");
        reveal_strlit(";\n");
        assert("));\n"@ =~= ")"@ + ")"@ + ";\n"@);
    }
}

/// The C of a declaration that isn't planned to bind a task of a known function
/// is that of its statements. It adds no error.
pub proof fn plain_declarations_are_written(
    emitted: Emitted,
    view: FunctionView,
    scopes: Seq<ScopeId>,
    declaration: HirDeclaration,
    task: TaskView,
)
    requires
        identity_layout::planned_binding(view.plan, declaration.id) is None,
        view.scene.task is Some ==> view.scene.task == Some(task),
    ensures
        ({
            let after = c_instruction::declaration_text(emitted, view, scopes, declaration);
            &&& after.problems == emitted.problems
            &&& c_meaning::same(
                after.out,
                c_meaning::written(
                    emitted.out,
                    plain_code(view, scopes, declaration, task),
                    task,
                    "    "@,
                ),
            )
        }),
{
    broadcast use {c_meaning::written_then, c_meaning::written_nothing};

    if let (Some(field), Some(own), Some(initializer)) = (
        c_symbols::symbol_field(view.scene.fields, declaration.id),
        view.scene.task,
        declaration.initializer,
    ) {
        let shown = c_expression::expression_text(initializer, scopes, view.scene);
        if field.is_task {
            let ty = text::trimmed(text::trimmed(declaration.ty.text@));
            binding_laws::binding_is_written(
                emitted.out,
                task,
                declaration.id,
                shown,
                ty != "void"@,
                ty,
            );
            binding_laws::registering_is_written(
                c_meaning::written(
                    emitted.out,
                    binding_laws::bind_code(task, declaration.id, shown, ty != "void"@, ty),
                    task,
                    "    "@,
                ),
                task,
                declaration.id,
                text::dec(declaration.id.0 as nat),
                text::dec(declaration.scope.0 as nat),
                view.stem,
                field.field_name@,
            );
        } else {
            copy_is_written(
                emitted.out,
                task,
                LogicalFieldId::Lifted(declaration.id),
                text::trimmed(field.ty.text@),
                shown,
            );
        }
    }
}

/// A declaration with a value gives it to the place where the declaration lives,
/// be it in the context or in a variable, unless it binds a task or is an array.
/// One without a value in the context does nothing.
pub proof fn declarations_reach_their_homes(
    view: FunctionView,
    scopes: Seq<ScopeId>,
    declaration: HirDeclaration,
    task: TaskView,
    machine: Machine,
    world: World,
)
    requires
        view.scene.task == Some(task),
    ensures
        ({
            let r = c_meaning::run(plain_code(view, scopes, declaration, task), machine, world);
            let field = c_symbols::symbol_field(view.scene.fields, declaration.id);
            let simple = field matches Some(f) ==> !f.is_task && !text::occurs(f.ty.text@, "["@);
            let home = if field is Some {
                Place::Own(LogicalFieldId::Lifted(declaration.id))
            } else {
                Place::Local(declaration.name@)
            };
            &&& declaration.initializer is Some && simple ==> r.exit is Falls && r.machine.calls
                == machine.calls && (r.machine.memory)(home) == Datum::Text(
                c_expression::expression_text(declaration.initializer->0, scopes, view.scene),
            ) && forall|q: Place|
                q != home ==> #[trigger] (r.machine.memory)(q) == (machine.memory)(q)
            &&& declaration.initializer is None && field is Some ==> r == (Run {
                machine,
                exit: Exit::Falls,
            })
            &&& field is Some ==> home == instruction_laws::home(view, declaration.id)
        }),
{
    broadcast use {c_meaning::run_then, c_meaning::run_nothing};

    instruction_laws::targets_are_homes(view, declaration.id, task);
    let fields = view.scene.fields;
    if c_symbols::symbol_field(fields, declaration.id) is Some {
        instruction_laws::lifted_are_found(fields, declaration.id, fields.len() as int);
        let k = c_symbols::lifted_last(fields, declaration.id, fields.len() as int)->0;
        assert(fields[k].declaration == declaration.id);
    }
}

} // verus!
