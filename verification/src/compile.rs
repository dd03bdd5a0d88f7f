use crate::ast::Node;
use crate::ast::Operator;
use crate::ast::Primitive;
use crate::backend::builder_call;
use crate::backend::builder_int_add;
use crate::backend::builder_int_sub;
use crate::backend::builder_position_at_end;
use crate::backend::builder_return_float;
use crate::backend::builder_return_int;
use crate::backend::call_result;
use crate::backend::context_append_basic_block;
use crate::backend::context_f32_type;
use crate::backend::context_f64_type;
use crate::backend::context_i32_type;
use crate::backend::context_i64_type;
use crate::backend::float_fn_type;
use crate::backend::float_param;
use crate::backend::int_bit_width;
use crate::backend::int_const;
use crate::backend::int_fn_type;
use crate::backend::int_param;
use crate::backend::pointer_param;
use crate::backend::value_of_basic;
use crate::backend::Value;
use crate::compiler::entry_view;
use crate::compiler::Compiler;
use crate::datatype::datatype_views;
use crate::datatype::scalar_of;
use crate::datatype::DataType;
use crate::datatype::DataTypeView;
use crate::datatype::ScalarKind;
use crate::emit::get_nth_method_input;
use crate::error::CompileError;
use crate::error::ErrorView;
use crate::module::declares;
use crate::module::lemma_type_index;
use crate::module::Module;
use crate::primitive::as_argument;
use crate::primitive::accepted;
use crate::emit::LLVMAlloca;
use crate::emit::LLVMPrintf;
use crate::emit::LLVMValue;
use crate::primitive::format_of;
use crate::backend::builder_pointer_cast;
use crate::backend::float_type_text;
use crate::backend::int_value_width;
use crate::backend::pointer_argument;
use crate::semantics::arguments_kind;
use crate::semantics::bound_values;
use crate::semantics::call_decision;
use crate::semantics::calls;
use crate::semantics::evaluates;
use crate::semantics::lemma_arguments_are_names;
use crate::semantics::lemma_calls;
use crate::semantics::lemma_evaluates_expression;
use crate::semantics::lemma_evaluates_name;
use crate::semantics::lemma_evaluates_none;
use crate::semantics::with_stack;
use crate::backend::basic_argument;
use crate::backend::call_made;
use crate::backend::came_as;
use crate::backend::cast_of;
use crate::backend::emitted_call;
use crate::backend::builder_int_z_extend;
use crate::backend::pointer_basic;
use crate::backend::returned_by;
use crate::backend::yields;
use crate::primitive::prints;
use crate::backend::int_basic;
use crate::backend::low_bits;
use crate::backend::return_built;
use crate::backend::returned;
use crate::backend::type_of_function;
use crate::backend::declared_as;
use crate::semantics::call_pushes;
use crate::semantics::defined_as;
use crate::semantics::main_emitted;
use crate::semantics::main_type;
use crate::semantics::called;
use crate::semantics::handed_as;
use crate::semantics::widened;
use crate::semantics::parameter_types;
use crate::semantics::declared_signature;
use crate::semantics::first_misfit;
use crate::semantics::fits;
use crate::semantics::inside;
use crate::semantics::with_function;
use crate::backend::float_function_type;
use crate::backend::float_param_type;
use crate::backend::int_function_type;
use crate::backend::int_param_type;
use crate::backend::pointer_param_type;
use crate::backend::scalar_type;
use crate::backend::takes_scalars;
use crate::module::kind_type;
use crate::module::result_type;
use crate::module::kinds_fault;
use crate::module::declared_type;
use crate::module::Signature;
use crate::module::SignatureView;
use crate::compiler::Entry;
use crate::semantics::arithmetic_of;
use crate::semantics::combined;
use crate::semantics::computes;
use crate::semantics::lemma_constant_anywhere;
use crate::semantics::lemma_decided_on_another_stack;
use crate::semantics::literal_entry;
use crate::semantics::operand_of;
use crate::semantics::operands_fault;
use crate::semantics::pushes_one;
use crate::semantics::Arithmetic;
use inkwell::values::IntValue;
use crate::semantics::argument_name;
use crate::semantics::compiles;
use crate::semantics::compiles_upto;
use crate::semantics::decided;
use crate::semantics::decided_including;
use crate::semantics::decided_upto;
use crate::semantics::lemma_decided_including_stays;
use crate::semantics::lemma_decided_is_sound;
use crate::semantics::lemma_decided_upto_stays;
use crate::semantics::stops;
use crate::semantics::stops_including;
use crate::semantics::first_other;
use crate::semantics::first_undeclared;
use crate::semantics::fresh_module;
use crate::semantics::includes;
use crate::semantics::includes_upto;
use crate::semantics::int64_type;
use crate::semantics::lemma_includes_next;
use crate::semantics::lemma_includes_none;
use crate::semantics::module_compiled;
use crate::semantics::passes;
use crate::semantics::session;
use crate::bootstrap::abstract_type;
use crate::primitive::primitive_type;
use crate::semantics::asks_backend;
use crate::semantics::joined;
use crate::semantics::lemma_compiles_assignment;
use crate::semantics::lemma_no_parameter_bound;
use crate::semantics::lemma_parameter_bound;
use crate::semantics::lemma_without_one_more;
use crate::semantics::lemma_compiles_binary;
use crate::semantics::lemma_compiles_call;
use crate::semantics::lemma_compiles_settled;
use crate::semantics::lemma_decided_assignment;
use crate::semantics::lemma_decided_binary;
use crate::semantics::lemma_decided_call;
use crate::semantics::lemma_decided_function;
use crate::semantics::lemma_decided_parentheses;
use crate::semantics::lemma_decided_primitive;
use crate::semantics::lemma_decided_settled;
use crate::semantics::lemma_no_parameter_fault;
use crate::semantics::call_fault;
use crate::semantics::parameter_fault;
use crate::semantics::scalar_fault;
use crate::semantics::settled;
use crate::semantics::signature_fault;
use crate::semantics::Decision;
use crate::semantics::lemma_compiles_function;
use crate::semantics::lemma_compiles_main;
use crate::semantics::lemma_compiles_next;
use crate::semantics::lemma_compiles_none;
use crate::semantics::lemma_compiles_parentheses;
use crate::semantics::lemma_compiles_primitive;
use crate::semantics::lemma_produces_at_most_one;
use crate::semantics::mangled_name;
use crate::semantics::parameter_name;
use crate::semantics::parameter_names;
use crate::semantics::parameter_type;
use crate::semantics::parameters_bound;
use crate::semantics::parameters_declared;
use crate::semantics::produces;
use crate::semantics::resolved;
use crate::semantics::returns_number;
use crate::semantics::state;
use crate::semantics::sure;
use crate::semantics::strings;
use crate::semantics::symbol_of;
use crate::semantics::struct_type;
use crate::semantics::symbols_of;
use crate::semantics::without;
use crate::semantics::State;
use crate::symbol::same_text;
use crate::symbol::symbol_names;
use crate::symbol::Symbol;
use inkwell::builder::Builder;
use inkwell::context::Context;
use inkwell::types::BasicMetadataTypeEnum;
use inkwell::types::FunctionType;
use inkwell::values::BasicMetadataValueEnum;
use vstd::prelude::*;
use vstd::string::StringExecFns;

verus! {

/// What every compilation step keeps and promises, whatever the backend
/// answers: the registered modules and the target module's name stay; a
/// success follows the rules of `compiles` and leaves `produces` entries
/// more on the operand stack; a failure leaves at least what was on the
/// stack before; what is sure to succeed does; and what is decided before
/// the backend is asked comes about: the state that the compilation leads
/// to, or the error that it fails with and the module and the scope that
/// the failure leaves.
pub open spec fn step<'a>(
    before: Compiler<'a>,
    target: Module<'a>,
    node: Node,
    r: Result<(), CompileError>,
    after: Compiler<'a>,
    changed: Module<'a>,
) -> bool {
    &&& after.wf()
    &&& changed.wf()
    &&& after.module_pairs() == before.module_pairs()
    &&& after.modules_view() == before.modules_view()
    &&& changed@.name == target@.name
    &&& after.stack_view().len() >= before.stack_view().len()
    &&& after.stack_view().take(before.stack_view().len() as int) =~= before.stack_view()
    &&& r is Ok ==> compiles(state(before, target), node, state(after, changed))
        && after.stack_view().len() == before.stack_view().len() + produces(node)
    &&& sure(state(before, target), node) ==> r is Ok
    &&& match decided(state(before, target), node) {
        Decision::Done(post) => r is Ok && state(after, changed) =~= post,
        Decision::Refused(e, left) => r is Err && r->Err_0@ == e && changed@ =~= left.module
            && after.scope_view() =~= left.scope,
        Decision::Constant(literal) => r is Ok && pushes_one(
            state(before, target),
            state(after, changed),
        ) && literal_entry(literal, after.stack_view().last()),
        Decision::Open => true,
    }
}

/// The outcome of declaring a type: a name that the table holds is
/// refused and the module stays as it was; any other type is appended.
pub open spec fn outcome_declared(
    target: crate::module::ModuleView,
    datatype: DataTypeView,
    r: Result<(), CompileError>,
    changed: crate::module::ModuleView,
) -> bool {
    &&& changed.name == target.name
    &&& changed.exports == target.exports
    &&& changed.functions == target.functions
    &&& declares(target.types, datatype.name) ==> r is Err && r->Err_0@
        == ErrorView::DuplicateType(datatype.name) && changed.types == target.types
    &&& !declares(target.types, datatype.name) ==> r is Ok && changed.types
        == target.types.push(datatype)
}

/// The instruction that an operator on two integers becomes, if it has
/// one.
pub fn arithmetic(op: Operator) -> (which: Option<Arithmetic>)
    ensures
        which == arithmetic_of(op),
{
    match op {
        Operator::Plus => Some(Arithmetic::Add),
        Operator::Minus => Some(Arithmetic::Subtract),
        _ => None,
    }
}

/// Builds the instruction `which` on `lhs` and `rhs`, in this order. The
/// two are of one width.
fn build_arithmetic<'a>(
    builder: &Builder<'a>,
    which: Arithmetic,
    lhs: IntValue<'a>,
    rhs: IntValue<'a>,
) -> (r: Result<IntValue<'a>, CompileError>)
    requires
        int_value_width(lhs) == int_value_width(rhs),
    ensures
        r is Ok ==> computes(which, r->Ok_0, lhs, rhs) && int_value_width(r->Ok_0)
            == int_value_width(lhs),
        r is Err ==> r->Err_0@ == ErrorView::Backend,
{
    match which {
        Arithmetic::Add => accepted(builder_int_add(builder, lhs, rhs, "")),
        Arithmetic::Subtract => accepted(builder_int_sub(builder, lhs, rhs, "")),
    }
}

/// The sum or the difference of two stack entries. Both must be integers,
/// the operator must be `+` or `-`, and the integers must be of one width:
/// `operands_fault` names the fault otherwise. The result is the integer
/// that the operator's instruction computes of the left and the right
/// operand, tagged with the type of the left one. Only the backend can
/// refuse operands without fault.
pub fn apply_binary<'a>(
    builder: &Builder<'a>,
    op: Operator,
    lhs: (Value<'a>, DataType),
    rhs: (Value<'a>, DataType),
) -> (r: Result<(Value<'a>, DataType), CompileError>)
    ensures
        match operands_fault(op, operand_of(entry_view(lhs)), operand_of(entry_view(rhs))) {
            Some(e) => r is Err && r->Err_0@ == e,
            None => r is Err ==> r->Err_0@ == ErrorView::Backend,
        },
        r is Ok ==> combined(op, entry_view(lhs), entry_view(rhs), entry_view(r->Ok_0)),
{
    match (lhs.0, rhs.0) {
        (Value::Int(x), Value::Int(y)) => {
            let which = match arithmetic(op) {
                Some(which) => which,
                None => {
                    return Err(CompileError::UnsupportedOperator(op));
                },
            };
            if int_bit_width(x) != int_bit_width(y) {
                return Err(CompileError::TypeMismatch);
            }
            let result = build_arithmetic(builder, which, x, y)?;
            Ok((Value::Int(result), lhs.1))
        },
        _ => Err(CompileError::TypeMismatch),
    }
}

/// The name under which a function is declared in the backend: the base
/// name, an underscore, and the names of the parameters' types joined by
/// underscores.
pub fn mangle(base: &str, types: &Vec<DataType>) -> (name: String)
    ensures
        name@ == mangled_name(
            base@,
            Seq::new(types@.len(), |i: int| types@[i]@.name),
        ),
{
    let ghost names = Seq::new(types@.len(), |i: int| types@[i]@.name);
    let mut name = base.to_owned();
    name.append("_");
    let mut i: usize = 0;
    while i < types.len()
        invariant
            i <= types@.len(),
            names == Seq::new(types@.len(), |i: int| types@[i]@.name),
            name@ == base@ + "_"@ + joined(names, i as int),
        decreases types@.len() - i,
    {
        if i > 0 {
            name.append("_");
        }
        name.append(types[i].name().name());
        proof {
            assert(names[i as int] == types@[i as int]@.name);
            if i == 0 {
                assert(joined(names, 0) =~= Seq::<char>::empty());
                assert(name@ =~= base@ + "_"@ + joined(names, 1));
            } else {
                assert(name@ =~= base@ + "_"@ + joined(names, i + 1));
            }
        }
        i += 1;
    }
    name
}

impl DataType {
    /// The backend type of a value of this type, by the fixed table from
    /// the names of the primitive types to scalar representations.
    pub fn get_ir_value_type<'a>(&self, module: &Module<'a>) -> (r: Result<
        BasicMetadataTypeEnum<'a>,
        CompileError,
    >)
        ensures
            scalar_of(self@.name) is Some ==> r is Ok,
            scalar_of(self@.name) is None ==> r is Err && r->Err_0@
                == ErrorView::UnsupportedPrimitive(self@.name),
            r is Ok ==> scalar_type(r->Ok_0) && kind_type(scalar_of(self@.name).unwrap(), r->Ok_0),
    {
        let context = module.get_context();
        match self.scalar_kind()? {
            ScalarKind::Float32 => {
                let ty = context_f32_type(context);
                let param = float_param(ty);
                assert(float_param_type(ty) == param);
                Ok(param)
            },
            ScalarKind::Float64 => {
                let ty = context_f64_type(context);
                let param = float_param(ty);
                assert(float_param_type(ty) == param);
                Ok(param)
            },
            ScalarKind::Int32 => {
                let ty = context_i32_type(context);
                let param = int_param(ty);
                assert(int_param_type(ty) == param);
                Ok(param)
            },
            ScalarKind::Int64 => {
                let ty = context_i64_type(context);
                let param = int_param(ty);
                assert(int_param_type(ty) == param);
                Ok(param)
            },
            ScalarKind::String => {
                let ty = module.i8_ptr_type();
                let param = pointer_param(ty);
                assert(pointer_param_type(ty) == param);
                Ok(param)
            },
        }
    }
}

/// The type of a function with the given parameters that returns a value
/// of the given scalar representation. A function returns a number.
pub fn function_type<'a>(
    module: &Module<'a>,
    kind: ScalarKind,
    params: &Vec<BasicMetadataTypeEnum<'a>>,
) -> (r: Result<FunctionType<'a>, CompileError>)
    ensures
        kind == ScalarKind::String ==> r is Err && r->Err_0@ == ErrorView::TypeMismatch,
        kind != ScalarKind::String ==> r is Ok,
        r is Ok ==> result_type(kind, params@, r->Ok_0),
        r is Ok && (forall|i: int| 0 <= i < params@.len() ==> scalar_type(#[trigger] params@[i]))
            ==> takes_scalars(r->Ok_0),
{
    let context = module.get_context();
    match kind {
        ScalarKind::Float32 => {
            let ty = context_f32_type(context);
            let function = float_fn_type(ty, params.as_slice(), false);
            assert(float_function_type(function, ty, params@, false));
            Ok(function)
        },
        ScalarKind::Float64 => {
            let ty = context_f64_type(context);
            let function = float_fn_type(ty, params.as_slice(), false);
            assert(float_function_type(function, ty, params@, false));
            Ok(function)
        },
        ScalarKind::Int32 => {
            let ty = context_i32_type(context);
            let function = int_fn_type(ty, params.as_slice(), false);
            assert(int_function_type(function, ty, params@, false));
            Ok(function)
        },
        ScalarKind::Int64 => {
            let ty = context_i64_type(context);
            let function = int_fn_type(ty, params.as_slice(), false);
            assert(int_function_type(function, ty, params@, false));
            Ok(function)
        },
        ScalarKind::String => Err(CompileError::TypeMismatch),
    }
}

/// Whether a value is of the scalar representation of a type.
pub fn value_fits<'a>(value: &Value<'a>, datatype: &DataType) -> (ok: bool)
    ensures
        ok == fits(*value, datatype@.name),
{
    match datatype.scalar_kind() {
        Ok(ScalarKind::Int32) => match value {
            Value::Int(x) => int_bit_width(*x) == 32,
            _ => false,
        },
        Ok(ScalarKind::Int64) => match value {
            Value::Int(x) => int_bit_width(*x) == 64,
            _ => false,
        },
        Ok(ScalarKind::Float32) => match value {
            Value::Float(x) => same_text(float_type_text(*x).as_str(), "float"),
            _ => false,
        },
        Ok(ScalarKind::Float64) => match value {
            Value::Float(x) => same_text(float_type_text(*x).as_str(), "double"),
            _ => false,
        },
        Ok(ScalarKind::String) => match value {
            Value::Pointer(_) => true,
            _ => false,
        },
        Err(_) => false,
    }
}

/// A value as an argument of a function of the function table: text is
/// handed over by its address as a pointer to bytes, any other value as it
/// is.
pub fn argument_for<'a>(builder: &Builder<'a>, module: &Module<'a>, value: &Value<'a>) -> (r: Result<
    BasicMetadataValueEnum<'a>,
    CompileError,
>)
    ensures
        !(*value is Pointer) ==> r is Ok,
        r is Ok ==> handed_as(r->Ok_0, *value),
        r is Err ==> r->Err_0@ == ErrorView::Backend,
{
    match value {
        Value::Pointer(text) => {
            let bytes = accepted(builder_pointer_cast(builder, *text, module.i8_ptr_type(), ""))?;
            let argument = pointer_argument(bytes);
            assert(cast_of(bytes, *text) && argument == basic_argument(pointer_basic(bytes)));
            Ok(argument)
        },
        other => Ok(as_argument(other)),
    }
}

/// A signature of scalar types with a number as its result shows no fault.
pub proof fn lemma_no_kinds_fault(signature: SignatureView, from: int)
    requires
        0 <= from,
        forall|k: int|
            0 <= k < signature.params.len() ==> scalar_of((#[trigger] signature.params[k]).name) is Some,
        returns_number(signature.result.name),
    ensures
        kinds_fault(signature, from) is None,
    decreases signature.params.len() - from,
{
    if from < signature.params.len() {
        lemma_no_kinds_fault(signature, from + 1);
    }
}

/// The entries of a list of values, as the compiler's rules see them.
pub open spec fn entries_of<'a>(values: Seq<(Value<'a>, DataType)>) -> Seq<Entry<'a>> {
    Seq::new(values.len(), |k: int| entry_view(values[k]))
}

impl<'a> Compiler<'a> {
    /// Compiles one node into `module`.
    ///
    /// A literal becomes a constant and is pushed with its type. A name is
    /// resolved through the scope, and through the scope alone: what it is
    /// bound to is pushed. An assignment compiles its value and binds the
    /// name to it. A sum or a difference compiles the left operand, then the
    /// right one, and pushes the result with the type of the left one. A
    /// call pushes what the function returns. A type declaration extends the
    /// type table, an export list the exports. A node in parentheses is
    /// compiled as the node itself, and the empty node does nothing.
    ///
    /// See `step` for what holds of every outcome; after a failure the
    /// operand stack is what it was before.
    pub fn compile_expr(&mut self, builder: &Builder<'a>, module: &mut Module<'a>, expr: &Node) -> (r:
        Result<(), CompileError>)
        requires
            old(self).wf(),
            old(module).wf(),
        ensures
            step(*old(self), *old(module), *expr, r, *final(self), *final(module)),
            r is Err ==> final(self).stack_view() == old(self).stack_view(),
            *expr is Function && r is Err ==> final(self).scope_view() == old(self).scope_view(),
        decreases expr, 2nat,
    {
        let depth = self.depth();
        let r = self.compile_node(builder, module, expr);
        if r.is_err() {
            self.drop_above(depth);
        }
        r
    }

    /// Compiles one node into `module`, without tidying the operand stack
    /// after a failure.
    fn compile_node(&mut self, builder: &Builder<'a>, module: &mut Module<'a>, expr: &Node) -> (r:
        Result<(), CompileError>)
        requires
            old(self).wf(),
            old(module).wf(),
        ensures
            step(*old(self), *old(module), *expr, r, *final(self), *final(module)),
            *expr is Function && r is Err ==> final(self).scope_view() == old(self).scope_view(),
        decreases expr, 1nat,
    {
        let ghost pre = state(*self, *module);
        proof {
            lemma_produces_at_most_one(*expr);
        }
        match expr {
            Node::AbstractType { name, supertype } => {
                let r = module.insert_type(
                    DataType::new_abstract_type(name.as_str(), supertype.as_str()),
                );
                proof {
                    self.lemma_decided(*old(module), *expr, r, *module);
                }
                r
            },
            Node::PrimitiveType { name, supertype, bits } => {
                let r = module.insert_type(
                    DataType::new_primitive_type(name.as_str(), supertype.as_str(), *bits),
                );
                proof {
                    self.lemma_decided(*old(module), *expr, r, *module);
                }
                r
            },
            Node::Empty => {
                proof {
                    old(self).lemma_decided_here(*old(module), *expr, Ok(()), *self, *module);
                }
                Ok(())
            },
            Node::Symbol(name) => {
                let r = match self.lookup(name.as_str()) {
                    Some(entry) => {
                        self.push(entry);
                        Ok(())
                    },
                    None => Err(CompileError::UndefinedSymbol(name.clone())),
                };
                proof {
                    old(self).lemma_decided_here(*old(module), *expr, r, *self, *module);
                }
                r
            },
            Node::ParenthesesExpr { expr: inner } => {
                let r = self.compile_expr(builder, module, &**inner);
                proof {
                    lemma_decided_parentheses(pre, *expr);
                    if r is Ok {
                        lemma_compiles_parentheses(pre, *expr, state(*self, *module));
                    }
                }
                r
            },
            Node::AssignmentExpr { identifier, value } => {
                let depth = self.depth();
                proof {
                    lemma_decided_assignment(pre, *expr);
                    lemma_produces_at_most_one(**value);
                }
                self.compile_expr(builder, module, &**value)?;
                let ghost mid = state(*self, *module);
                if self.depth() == depth {
                    return Err(CompileError::TypeMismatch);
                }
                match self.pop() {
                    Some(entry) => {
                        self.bind(identifier.as_str(), entry);
                        proof {
                            assert(self.stack_view() =~= pre.stack);
                            lemma_compiles_assignment(pre, *expr, mid, state(*self, *module));
                        }
                        Ok(())
                    },
                    None => Err(CompileError::TypeMismatch),
                }
            },
            Node::BinaryExpr { op, lhs, rhs } => {
                let depth = self.depth();
                proof {
                    lemma_decided_binary(pre, *expr);
                    lemma_produces_at_most_one(**lhs);
                    lemma_produces_at_most_one(**rhs);
                    lemma_decided_is_sound(pre, **lhs);
                }
                self.compile_expr(builder, module, &**lhs)?;
                let ghost a = state(*self, *module);
                if self.depth() == depth {
                    return Err(CompileError::TypeMismatch);
                }
                proof {
                    lemma_constant_anywhere(pre, a, **rhs);
                    lemma_decided_is_sound(a, **rhs);
                    lemma_decided_is_sound(pre, **rhs);
                    if decided(pre, **lhs) is Constant {
                        lemma_decided_on_another_stack(pre, a.stack, **rhs);
                        assert(with_stack(pre, a.stack) =~= a);
                        if decided(pre, **rhs) is Done {
                            let b0 = decided(pre, **rhs)->Done_0;
                            if b0.stack.len() == pre.stack.len() + 1 {
                                assert((a.stack + b0.stack.skip(pre.stack.len() as int)).last()
                                    == b0.stack.last());
                            }
                        }
                    }
                }
                self.compile_expr(builder, module, &**rhs)?;
                let ghost b = state(*self, *module);
                if self.depth() == depth + 1 {
                    return Err(CompileError::TypeMismatch);
                }
                let right = match self.pop() {
                    Some(entry) => entry,
                    None => {
                        return Err(CompileError::TypeMismatch);
                    },
                };
                let left = match self.pop() {
                    Some(entry) => entry,
                    None => {
                        return Err(CompileError::TypeMismatch);
                    },
                };
                proof {
                    assert(self.stack_view() =~= pre.stack);
                    assert(entry_view(left) == a.stack.last()) by {
                        assert(b.stack.take(a.stack.len() as int) == a.stack);
                        assert(b.stack.drop_last() =~= a.stack);
                    }
                    assert(entry_view(right) == b.stack.last());
                    lemma_constant_anywhere(pre, pre, **lhs);
                }
                let result = apply_binary(builder, *op, left, right)?;
                self.push(result);
                proof {
                    assert(self.stack_view().drop_last() =~= pre.stack);
                    lemma_compiles_binary(pre, *expr, a, b, state(*self, *module));
                }
                Ok(())
            },
            Node::Primitive(literal) => {
                proof {
                    lemma_decided_primitive(pre, *expr);
                }
                let value = match literal {
                    Primitive::String(_) => Value::Pointer(literal.emit_ir_alloca(builder, module)?),
                    _ => literal.emit_ir_value(builder, module)?,
                };
                self.push((value, literal.get_datatype()));
                proof {
                    assert(self.stack_view().drop_last() =~= pre.stack);
                    reveal_strlit("Float32");
                    reveal_strlit("Float64");
                    assert("Float64"@ != "Float32"@) by {
                        assert("Float64"@[5] != "Float32"@[5]);
                    }
                    lemma_compiles_primitive(pre, *expr, state(*self, *module));
                }
                Ok(())
            },
            Node::StructType { name, supertype, field_names, field_types } => {
                let r = match resolve_struct(
                    module,
                    name.as_str(),
                    supertype.as_str(),
                    field_names,
                    field_types,
                ) {
                    Ok(datatype) => module.insert_type(datatype),
                    Err(e) => Err(e),
                };
                proof {
                    self.lemma_decided(*old(module), *expr, r, *module);
                }
                r
            },
            Node::Exports { symbols } => {
                let r = export_all(module, symbols);
                proof {
                    self.lemma_decided(*old(module), *expr, r, *module);
                }
                r
            },
            Node::MethodCall { name, args } => {
                let r = self.compile_method_call(builder, module, name.as_str(), args);
                proof {
                    lemma_decided_call(pre, *expr);
                    if r is Ok {
                        lemma_compiles_call(pre, *expr, state(*self, *module));
                        assert(self.stack_view().take(pre.stack.len() as int)
                            =~= self.stack_view().drop_last());
                    }
                    assert(self.stack_view().take(pre.stack.len() as int) =~= pre.stack);
                }
                r
            },
            Node::Function { .. } => {
                let saved = self.saved_scope();
                let r = self.compile_function(module, expr);
                match r {
                    Ok(()) => {},
                    Err(_) => {
                        proof {
                            lemma_decided_function(pre, *expr);
                        }
                        self.restore_scope(saved);
                    },
                }
                r
            },
            _ => {
                proof {
                    old(self).lemma_decided_here(
                        *old(module),
                        *expr,
                        Err(CompileError::UnsupportedConstruct),
                        *self,
                        *module,
                    );
                }
                Err(CompileError::UnsupportedConstruct)
            },
        }
    }

    /// A declaration or an export list changes the target module alone, as
    /// decided beforehand.
    proof fn lemma_decided(
        self,
        target: Module<'a>,
        node: Node,
        r: Result<(), CompileError>,
        changed: Module<'a>,
    )
        requires
            self.wf(),
            changed.wf(),
            changed@.name == target@.name,
            match node {
                Node::AbstractType { name, supertype } => outcome_declared(
                    target@,
                    abstract_type(name@, supertype@),
                    r,
                    changed@,
                ),
                Node::PrimitiveType { name, supertype, bits } => outcome_declared(
                    target@,
                    primitive_type(name@, supertype@),
                    r,
                    changed@,
                ),
                Node::StructType { name, supertype, field_names, field_types } => if field_names@.len()
                    != field_types@.len() {
                    r is Err && r->Err_0@ == ErrorView::UnsupportedConstruct && changed@ == target@
                } else {
                    match first_undeclared(target@.types, strings(field_types@), 0) {
                        Some(i) => r is Err && r->Err_0@ == ErrorView::UndefinedType(
                            field_types@[i]@,
                        ) && changed@ == target@,
                        None => outcome_declared(
                            target@,
                            struct_type(
                                name@,
                                supertype@,
                                strings(field_names@),
                                resolved(target@.types, strings(field_types@)),
                            ),
                            r,
                            changed@,
                        ),
                    }
                },
                Node::Exports { symbols } => changed@.types == target@.types && changed@.functions
                    == target@.functions && if first_other(
                    symbols@,
                    0,
                ) is Some {
                    r is Err && r->Err_0@ == ErrorView::UnsupportedConstruct && changed@.exports
                        == target@.exports
                } else {
                    r is Ok && changed@.exports == target@.exports + symbols_of(symbols@)
                },
                _ => false,
            },
        ensures
            step(self, target, node, r, self, changed),
    {
        reveal(settled);
        lemma_decided_settled(state(self, target), node);
        assert(self.stack_view().take(self.stack_view().len() as int) =~= self.stack_view());
        if r is Ok {
            lemma_compiles_settled(state(self, target), node, state(self, changed));
        }
    }

    /// A reference to a name, the empty node and the nodes that are not
    /// compiled leave the target module as it is, as decided beforehand.
    proof fn lemma_decided_here(
        self,
        target: Module<'a>,
        node: Node,
        r: Result<(), CompileError>,
        after: Compiler<'a>,
        changed: Module<'a>,
    )
        requires
            self.wf(),
            after.wf(),
            changed.wf(),
            changed == target,
            after.module_pairs() == self.module_pairs(),
            after.modules_view() == self.modules_view(),
            after.scope_view() == self.scope_view(),
            !asks_backend(node),
            !(node is AbstractType || node is PrimitiveType || node is StructType
                || node is Exports),
            match node {
                Node::Empty => r is Ok && after.stack_view() == self.stack_view(),
                Node::Symbol(name) => if self.scope_view().dom().contains(name@) {
                    r is Ok && after.stack_view() == self.stack_view().push(
                        self.scope_view()[name@],
                    )
                } else {
                    r is Err && r->Err_0@ == ErrorView::UndefinedSymbol(name@)
                        && after.stack_view() == self.stack_view()
                },
                _ => r is Err && r->Err_0@ == ErrorView::UnsupportedConstruct
                    && after.stack_view() == self.stack_view(),
            },
        ensures
            step(self, target, node, r, after, changed),
    {
        reveal(settled);
        lemma_decided_settled(state(self, target), node);
        assert(after.stack_view().take(self.stack_view().len() as int) =~= self.stack_view());
        if r is Ok {
            lemma_compiles_settled(state(self, target), node, state(after, changed));
        }
    }

    /// Compiles a call: of the output routine `printf` on one value, with
    /// the format that the value's type selects, or of a function of the
    /// function table of `module`. The arguments are evaluated from the
    /// left: a name stands for what it is bound to, any other argument is
    /// compiled and must leave one value. The values handed to a function
    /// are as many as its parameters, each of the representation of its
    /// parameter. What a function returns is pushed, tagged with the
    /// declared type of its result; the count that the output routine
    /// returns is tagged as a 64-bit signed integer. After a failure the
    /// operand stack is what it was; where every argument is a name,
    /// nothing has changed.
    #[verifier::loop_isolation(false)]
    pub fn compile_method_call(
        &mut self,
        builder: &Builder<'a>,
        module: &mut Module<'a>,
        name: &str,
        args: &Vec<Node>,
    ) -> (r: Result<(), CompileError>)
        requires
            old(self).wf(),
            old(module).wf(),
        ensures
            final(self).wf(),
            final(module).wf(),
            final(self).module_pairs() == old(self).module_pairs(),
            final(self).modules_view() == old(self).modules_view(),
            final(module)@.name == old(module)@.name,
            r is Err ==> final(self).stack_view() == old(self).stack_view(),
            r is Ok ==> calls(
                state(*old(self), *old(module)),
                name@,
                *args,
                state(*final(self), *final(module)),
            ),
            match call_decision(state(*old(self), *old(module)), name@, args@) {
                Decision::Refused(e, left) => r is Err && r->Err_0@ == e && final(module)@
                    =~= left.module && final(self).scope_view() =~= left.scope,
                _ => true,
            },
        decreases args, 0nat,
    {
        let ghost pre = state(*self, *module);
        let depth = self.depth();
        let mut values: Vec<(Value<'a>, DataType)> = Vec::new();
        let ghost mut plain = true;
        let mut i: usize = 0;
        proof {
            lemma_evaluates_none(pre, *args);
            assert(entries_of(values@) =~= Seq::empty());
        }
        while i < args.len()
            invariant
                i <= args@.len(),
                values@.len() == i,
                self.wf(),
                module.wf(),
                self.module_pairs() == old(self).module_pairs(),
                self.modules_view() == old(self).modules_view(),
                module@.name == old(module)@.name,
                self.stack_view() == pre.stack,
                depth == pre.stack.len(),
                evaluates(pre, *args, i as int, state(*self, *module), entries_of(values@)),
                plain ==> state(*self, *module) == pre && arguments_kind(pre.scope, args@, 0)
                    == arguments_kind(pre.scope, args@, i as int) && forall|k: int|
                    0 <= k < i ==> argument_name(#[trigger] args@[k]) is Some && entries_of(
                        values@,
                    )[k] == pre.scope[argument_name(args@[k]).unwrap()],
                !plain ==> arguments_kind(pre.scope, args@, 0) is Expression,
            decreases args@.len() - i,
        {
            let ghost mid = state(*self, *module);
            let ghost before = entries_of(values@);
            let bound = match &args[i] {
                Node::Symbol(text) => Some(text.as_str()),
                Node::FunctionArg { name: text, .. } => Some(text.as_str()),
                _ => None,
            };
            match bound {
                Some(bound) => {
                    assert(argument_name(args@[i as int]) == Some(bound@));
                    match self.lookup(bound) {
                        Some(entry) => {
                            values.push(entry);
                            proof {
                                assert(entries_of(values@) =~= before.push(mid.scope[bound@]));
                                lemma_evaluates_name(pre, *args, i + 1, mid, before);
                            }
                        },
                        None => {
                            return Err(CompileError::UndefinedSymbol(bound.to_owned()));
                        },
                    }
                },
                None => {
                    assert(argument_name(args@[i as int]) is None);
                    proof {
                        plain = false;
                        lemma_produces_at_most_one(args@[i as int]);
                    }
                    match self.compile_expr(builder, module, &args[i]) {
                        Ok(()) => {},
                        Err(e) => {
                            return Err(e);
                        },
                    }
                    let ghost after = state(*self, *module);
                    if self.depth() == depth {
                        return Err(CompileError::TypeMismatch);
                    }
                    match self.pop() {
                        Some(entry) => {
                            values.push(entry);
                            proof {
                                assert(after.stack.take(mid.stack.len() as int) =~= mid.stack);
                                assert(after.stack.drop_last() =~= mid.stack);
                                assert(entries_of(values@) =~= before.push(after.stack.last()));
                                assert(state(*self, *module) =~= with_stack(after, mid.stack));
                                lemma_evaluates_expression(pre, *args, i + 1, mid, after, before);
                            }
                        },
                        None => {
                            return Err(CompileError::TypeMismatch);
                        },
                    }
                },
            }
            i += 1;
        }
        let ghost mid = state(*self, *module);
        proof {
            if plain {
                lemma_arguments_are_names(pre.scope, args@, 0);
                assert(entries_of(values@) =~= bound_values(pre.scope, args@));
            }
        }
        let result = if same_text(name, "printf") {
            if values.len() != 1 {
                return Err(CompileError::UnsupportedConstruct);
            }
            assert(entries_of(values@)[0] == entry_view(values@[0]));
            let printed = values[0].emit_ir_printf(builder, module)?;
            let count = match printed {
                Value::Int(x) => {
                    let width = int_bit_width(x);
                    if width == 64 {
                        printed
                    } else if width < 64 {
                        Value::Int(
                            accepted(builder_int_z_extend(builder, x, module.i64_type(), ""))?,
                        )
                    } else {
                        return Err(CompileError::TypeMismatch);
                    }
                },
                _ => {
                    return Err(CompileError::TypeMismatch);
                },
            };
            let tag = DataType::new_primitive_type("Int64", "Signed", 64);
            if !value_fits(&count, &tag) {
                return Err(CompileError::TypeMismatch);
            }
            proof {
                assert(prints(values@[0].0, values@[0].1@.name, printed) && widened(
                    printed,
                    count,
                ));
            }
            (count, tag)
        } else {
            let signature = match module.get_signature(name) {
                Some(signature) => signature,
                None => {
                    return Err(CompileError::UndefinedFunction(name.to_owned()));
                },
            };
            if values.len() != signature.params.len() {
                return Err(CompileError::TypeMismatch);
            }
            let mut arguments: Vec<BasicMetadataValueEnum<'a>> = Vec::new();
            let mut j: usize = 0;
            while j < values.len()
                invariant
                    j <= values@.len(),
                    first_misfit(entries_of(values@), signature@.params, 0) == first_misfit(
                        entries_of(values@),
                        signature@.params,
                        j as int,
                    ),
                decreases values@.len() - j,
            {
                assert(entries_of(values@)[j as int] == entry_view(values@[j as int]));
                if !value_fits(&values[j].0, &signature.params[j]) {
                    return Err(CompileError::TypeMismatch);
                }
                j += 1;
            }
            let function = module.get_function_as(name, signature)?;
            let mut n: usize = 0;
            while n < values.len()
                invariant
                    n <= values@.len(),
                    arguments@.len() == n,
                    forall|k: int|
                        0 <= k < n ==> handed_as(
                            #[trigger] arguments@[k],
                            entries_of(values@)[k].value,
                        ),
                decreases values@.len() - n,
            {
                let argument = argument_for(builder, module, &values[n].0)?;
                assert(entries_of(values@)[n as int].value == values@[n as int].0);
                arguments.push(argument);
                n += 1;
            }
            let call = accepted(builder_call(builder, function, arguments.as_slice(), ""))?;
            let returned = match call_result(call) {
                Some(raw) => {
                    let value = value_of_basic(raw);
                    assert(returned_by(raw, call) && came_as(raw, value));
                    value
                },
                None => {
                    return Err(CompileError::TypeMismatch);
                },
            };
            if !value_fits(&returned, &signature.result) {
                return Err(CompileError::TypeMismatch);
            }
            proof {
                assert(call_made(call, function, arguments@) && yields(returned, call));
                assert(emitted_call(function, arguments@, returned));
                assert(called(name@, signature@, entries_of(values@), returned));
            }
            (returned, signature.result.clone())
        };
        self.push(result);
        proof {
            assert(self.stack_view().drop_last() =~= pre.stack);
            lemma_calls(pre, name@, *args, mid, entries_of(values@), state(*self, *module));
        }
        Ok(())
    }

    /// Compiles the statements of `body`, one after the other, into
    /// `module`. A success follows `compiles` statement by statement. After
    /// a failure the statements before the failing one have been compiled
    /// and the operand stack is what they left. What is decided of the
    /// statements before the backend is asked comes about: the state that
    /// they lead to, or the error of the first that is decided to fail and
    /// the state that its failure leaves.
    #[verifier::loop_isolation(false)]
    pub fn compile_body(&mut self, builder: &Builder<'a>, module: &mut Module<'a>, body: &Vec<Node>) -> (r:
        Result<(), CompileError>)
        requires
            old(self).wf(),
            old(module).wf(),
        ensures
            final(self).wf(),
            final(module).wf(),
            final(self).module_pairs() == old(self).module_pairs(),
            final(self).modules_view() == old(self).modules_view(),
            final(module)@.name == old(module)@.name,
            final(self).stack_view().len() >= old(self).stack_view().len(),
            final(self).stack_view().take(old(self).stack_view().len() as int) == old(
                self,
            ).stack_view(),
            r is Ok ==> compiles_upto(
                state(*old(self), *old(module)),
                *body,
                body.len() as int,
                state(*final(self), *final(module)),
            ),
            r is Err ==> stops(
                state(*old(self), *old(module)),
                *body,
                state(*final(self), *final(module)),
            ),
            match decided_upto(state(*old(self), *old(module)), *body, body.len() as int) {
                Decision::Done(post) => r is Ok && state(*final(self), *final(module)) == post,
                Decision::Refused(e, left) => r is Err && r->Err_0@ == e && state(
                    *final(self),
                    *final(module),
                ) == left,
                _ => true,
            },
        decreases body, 0nat,
    {
        let ghost pre = state(*self, *module);
        proof {
            lemma_compiles_none(pre, *body);
        }
        let mut i: usize = 0;
        while i < body.len()
            invariant
                i <= body@.len(),
                self.wf(),
                module.wf(),
                self.module_pairs() == old(self).module_pairs(),
                self.modules_view() == old(self).modules_view(),
                module@.name == old(module)@.name,
                self.stack_view().len() >= pre.stack.len(),
                self.stack_view().take(pre.stack.len() as int) == pre.stack,
                compiles_upto(pre, *body, i as int, state(*self, *module)),
                match decided_upto(pre, *body, i as int) {
                    Decision::Done(so_far) => state(*self, *module) == so_far,
                    Decision::Refused(_, _) => false,
                    _ => true,
                },
            decreases body@.len() - i,
        {
            let ghost mid = state(*self, *module);
            proof {
                lemma_decided_is_sound(mid, body[i as int]);
            }
            let r = self.compile_expr(builder, module, &body[i]);
            proof {
                if !(decided_upto(pre, *body, i + 1) is Done) {
                    lemma_decided_upto_stays(pre, *body, i + 1, body.len() as int);
                }
            }
            match r {
                Ok(()) => {},
                Err(e) => {
                    proof {
                        assert(compiles_upto(pre, *body, i as int, mid));
                        assert(state(*self, *module).stack =~= mid.stack);
                        if decided_upto(pre, *body, i + 1) is Refused {
                            let left = decided_upto(pre, *body, i + 1)->Refused_1;
                            assert(state(*self, *module) =~= left);
                        }
                    }
                    return Err(e);
                },
            }
            i += 1;
            proof {
                lemma_compiles_next(pre, *body, i as int, mid, state(*self, *module));
                assert(self.stack_view().take(pre.stack.len() as int) =~= pre.stack) by {
                    assert(self.stack_view().take(mid.stack.len() as int) =~= mid.stack);
                }
            }
        }
        Ok(())
    }

    /// Compiles a module node: the statements are compiled, in order, into
    /// a fresh module called `name` that the bootstrap module was linked
    /// into, and the module is registered under `name`. The operand stack
    /// is left as it was; after a failure no module has been registered.
    pub fn compile_module(&mut self, name: &str, exprs: &Vec<Node>, context: &'a Context) -> (r:
        Result<(), CompileError>)
        requires
            old(self).wf(),
        ensures
            final(self).wf(),
            final(self).stack_view() == old(self).stack_view(),
            !old(self).modules_view().dom().contains("Core"@) ==> r is Err && r->Err_0@
                == ErrorView::UndefinedSymbol("Core"@) && final(self).scope_view() == old(
                self,
            ).scope_view(),
            r is Err ==> final(self).modules_view() == old(self).modules_view(),
            r is Ok ==> old(self).modules_view().dom().contains("Core"@)
                && final(self).modules_view().dom().contains(name@) && final(self).modules_view()
                == old(self).modules_view().insert(name@, final(self).modules_view()[name@])
                && module_compiled(
                old(self).scope_view(),
                old(self).stack_view(),
                old(self).modules_view()["Core"@],
                name@,
                *exprs,
                final(self).modules_view()[name@],
                final(self).scope_view(),
            ) && final(self).modules_view()[name@].name == name@,
    {
        let mut module = Module::new(context, name);
        match self.get_module("Core") {
            Some(core) => {
                module.link(core)?;
            },
            None => {
                return Err(CompileError::UndefinedSymbol("Core".to_owned()));
            },
        }
        let builder = module.create_builder();
        let depth = self.depth();
        let ghost begin = state(*self, module);
        proof {
            assert(begin =~= (State {
                module: fresh_module(name@, old(self).modules_view()["Core"@]),
                scope: old(self).scope_view(),
                stack: old(self).stack_view(),
            }));
        }
        let r = self.compile_body(&builder, &mut module, exprs);
        let ghost end = state(*self, module);
        self.drop_above(depth);
        match r {
            Ok(()) => {},
            Err(e) => {
                return Err(e);
            },
        }
        self.insert_module(name, module);
        proof {
            assert(passes(end));
            assert(self.modules_view()[name@] == end.module);
        }
        Ok(())
    }

    /// Compiles the top-level nodes of a parsed source, in order: a module
    /// node becomes a module of its own, any other node is compiled into
    /// `module`. A success follows `includes` node by node. After a failure
    /// the nodes before the failing one have been included; the operand
    /// stack and the registered modules are what they left. What is decided
    /// of the nodes before the backend is asked comes about, and leaves the
    /// registered modules as they were.
    #[verifier::loop_isolation(false)]
    pub fn include_ast(&mut self, module: &mut Module<'a>, ast: &Vec<Node>) -> (r: Result<
        (),
        CompileError,
    >)
        requires
            old(self).wf(),
            old(module).wf(),
        ensures
            final(self).wf(),
            final(module).wf(),
            final(module)@.name == old(module)@.name,
            final(self).stack_view().len() >= old(self).stack_view().len(),
            final(self).stack_view().take(old(self).stack_view().len() as int) == old(
                self,
            ).stack_view(),
            r is Ok ==> includes_upto(
                session(*old(self), *old(module)),
                *ast,
                ast.len() as int,
                session(*final(self), *final(module)),
            ),
            r is Err ==> stops_including(
                session(*old(self), *old(module)),
                *ast,
                session(*final(self), *final(module)),
            ),
            match decided_including(state(*old(self), *old(module)), *ast, ast.len() as int) {
                Decision::Done(post) => r is Ok && state(*final(self), *final(module)) == post
                    && final(self).modules_view() == old(self).modules_view(),
                Decision::Refused(e, left) => r is Err && r->Err_0@ == e && state(
                    *final(self),
                    *final(module),
                ) == left && final(self).modules_view() == old(self).modules_view(),
                _ => true,
            },
    {
        let ghost pre = session(*self, *module);
        proof {
            lemma_includes_none(pre, *ast);
        }
        let context = module.get_context();
        let builder = module.create_builder();
        let mut i: usize = 0;
        while i < ast.len()
            invariant
                i <= ast@.len(),
                self.wf(),
                module.wf(),
                module@.name == old(module)@.name,
                self.stack_view().len() >= pre.state.stack.len(),
                self.stack_view().take(pre.state.stack.len() as int) == pre.state.stack,
                includes_upto(pre, *ast, i as int, session(*self, *module)),
                match decided_including(pre.state, *ast, i as int) {
                    Decision::Done(so_far) => state(*self, *module) == so_far
                        && self.modules_view() == pre.modules,
                    Decision::Refused(_, _) => false,
                    _ => true,
                },
            decreases ast@.len() - i,
        {
            let ghost mid = session(*self, *module);
            proof {
                lemma_decided_is_sound(mid.state, ast[i as int]);
            }
            let r = match &ast[i] {
                Node::Module { name, exprs } => self.compile_module(name.as_str(), exprs, context),
                node => self.compile_expr(&builder, module, node),
            };
            proof {
                if !(decided_including(pre.state, *ast, i + 1) is Done) {
                    lemma_decided_including_stays(pre.state, *ast, i + 1, ast.len() as int);
                }
            }
            match r {
                Ok(()) => {},
                Err(e) => {
                    proof {
                        assert(includes_upto(pre, *ast, i as int, mid));
                        assert(session(*self, *module).state.stack =~= mid.state.stack);
                        assert(session(*self, *module).modules =~= mid.modules);
                        if decided_including(pre.state, *ast, i + 1) is Refused {
                            let left = decided_including(pre.state, *ast, i + 1)->Refused_1;
                            assert(state(*self, *module) =~= left);
                        }
                    }
                    return Err(e);
                },
            }
            i += 1;
            proof {
                assert(includes(mid, ast[i as int - 1], session(*self, *module)));
                lemma_includes_next(pre, *ast, i as int, mid, session(*self, *module));
                assert(self.stack_view().take(pre.state.stack.len() as int) =~= pre.state.stack)
                    by {
                    assert(self.stack_view().take(mid.state.stack.len() as int)
                        =~= mid.state.stack);
                }
            }
        }
        Ok(())
    }

    /// Compiles a function definition. The function `main` takes nothing
    /// and returns the 32-bit integer zero; what its statements leave on
    /// the operand stack is dropped. Any other function is declared under
    /// its mangled name, with the declared types of its parameters and of
    /// its result as its signature, so that its own statements can call it.
    /// Each parameter is bound to the value that the backend hands in,
    /// tagged with its declared type, while the statements are compiled.
    /// The last entry on the operand stack is returned; it must be of the
    /// representation of the declared result. The parameters are taken out
    /// of scope again.
    #[verifier::loop_isolation(false)]
    fn compile_function(&mut self, module: &mut Module<'a>, expr: &Node) -> (r: Result<
        (),
        CompileError,
    >)
        requires
            old(self).wf(),
            old(module).wf(),
            *expr is Function,
        ensures
            step(*old(self), *old(module), *expr, r, *final(self), *final(module)),
        decreases expr, 0nat,
    {
        let ghost pre = state(*self, *module);
        proof {
            lemma_decided_function(pre, *expr);
        }
        match expr {
            Node::Function { name, args, return_type, body } => {
                let context = module.get_context();
                let builder = module.create_builder();
                let depth = self.depth();
                if same_text(name.as_str(), "main") {
                    let no_params: Vec<BasicMetadataTypeEnum<'a>> = Vec::new();
                    let result_type = context_i32_type(context);
                    let ty = int_fn_type(result_type, no_params.as_slice(), false);
                    let func = module.declare(name.as_str(), ty, None);
                    proof {
                        assert(no_params@ =~= Seq::empty());
                        assert(int_function_type(ty, result_type, Seq::empty(), false));
                        assert(main_type(type_of_function(func)));
                    }
                    let entry = context_append_basic_block(context, func, "entry");
                    builder_position_at_end(&builder, entry);
                    self.compile_body(&builder, module, body)?;
                    let ghost end = state(*self, *module);
                    self.drop_above(depth);
                    let zero = int_const(context_i32_type(context), 0, false);
                    accepted(builder_return_int(&builder, zero))?;
                    proof {
                        assert(low_bits(0, 32) == 0) by {
                            vstd::arithmetic::power2::lemma_pow2_pos(32);
                        }
                        assert(main_emitted(func, zero));
                        assert(compiles_upto(pre, *body, body.len() as int, end));
                        assert(self.stack_view() =~= pre.stack);
                        assert(state(*self, *module) =~= (State {
                            module: end.module,
                            scope: end.scope,
                            stack: pre.stack,
                        }));
                        lemma_compiles_main(pre, *expr, end, func, zero, state(*self, *module));
                    }
                    return Ok(());
                }
                if args.len() >= u32::MAX as usize {
                    return Err(CompileError::UnsupportedConstruct);
                }
                let mut arg_types: Vec<DataType> = Vec::new();
                let mut i: usize = 0;
                while i < args.len()
                    invariant
                        i <= args@.len(),
                        arg_types@.len() == i,
                        parameter_fault(pre.module.types, args@, 0) == parameter_fault(
                            pre.module.types,
                            args@,
                            i as int,
                        ),
                        forall|k: int|
                            0 <= k < i ==> parameter_name(#[trigger] args@[k]) is Some && declares(
                                pre.module.types,
                                parameter_type(args@[k]).unwrap(),
                            ) && arg_types@[k]@.name == parameter_type(args@[k]).unwrap()
                                && arg_types@[k]@ == declared_type(
                                pre.module.types,
                                parameter_type(args@[k]).unwrap(),
                            ),
                    decreases args@.len() - i,
                {
                    match &args[i] {
                        Node::FunctionArg { name: _, arg_type } => {
                            proof {
                                lemma_type_index(pre.module.types, arg_type@, 0);
                            }
                            let found = module.get_type(arg_type.as_str())?;
                            arg_types.push(found.clone());
                        },
                        _ => {
                            return Err(CompileError::UnsupportedConstruct);
                        },
                    }
                    i += 1;
                }
                let method_name = mangle(name.as_str(), &arg_types);
                proof {
                    lemma_type_index(pre.module.types, return_type@, 0);
                }
                let returned = module.get_type(return_type.as_str())?.clone();
                let mut j: usize = 0;
                while j < arg_types.len()
                    invariant
                        j <= arg_types@.len(),
                        scalar_fault(args@, 0) == scalar_fault(args@, j as int),
                        forall|k: int|
                            0 <= k < j ==> scalar_of((#[trigger] arg_types@[k])@.name) is Some,
                    decreases arg_types@.len() - j,
                {
                    assert(arg_types@[j as int]@.name == parameter_type(args@[j as int]).unwrap());
                    let _ = arg_types[j].scalar_kind()?;
                    j += 1;
                }
                match returned.scalar_kind()? {
                    ScalarKind::String => {
                        return Err(CompileError::TypeMismatch);
                    },
                    _ => {},
                }
                let signature = Signature { params: arg_types, result: returned };
                proof {
                    lemma_no_parameter_fault(pre.module.types, args@, 0);
                    assert(parameters_declared(pre.module.types, args@));
                    assert(returns_number(return_type@));
                    assert(signature_fault(pre.module.types, args@, return_type@) is None);
                    assert(signature@.params =~= declared_signature(
                        pre.module.types,
                        args@,
                        return_type@,
                    ).params);
                    assert(signature@ =~= declared_signature(pre.module.types, args@, return_type@));
                    assert(Seq::new(signature.params@.len(), |i: int| signature.params@[i]@.name)
                        =~= parameter_types(args@));
                    lemma_no_kinds_fault(signature@, 0);
                }
                let func = match module.add_function(method_name.as_str(), signature.clone(), None) {
                    Ok(func) => func,
                    Err(e) => {
                        return Err(e);
                    },
                };
                let entry = context_append_basic_block(context, func, "entry");
                builder_position_at_end(&builder, entry);
                proof {
                    lemma_no_parameter_bound(pre.module.types, pre.scope, args@, func);
                    assert(defined_as(pre, name@, args@, return_type@, func));
                    assert(module@ =~= with_function(
                        pre.module,
                        mangled_name(name@, parameter_types(args@)),
                        declared_signature(pre.module.types, args@, return_type@),
                    ));
                }
                let ghost names = parameter_names(args@);
                let mut n: usize = 0;
                while n < args.len()
                    invariant
                        n <= args@.len(),
                        self.wf(),
                        self.module_pairs() == old(self).module_pairs(),
                        self.modules_view() == old(self).modules_view(),
                        self.stack_view() == pre.stack,
                        parameters_bound(
                            pre.module.types,
                            pre.scope,
                            args@,
                            n as int,
                            func,
                            self.scope_view(),
                        ),
                    decreases args@.len() - n,
                {
                    let bound = match &args[n] {
                        Node::FunctionArg { name: text, .. } => text.as_str(),
                        _ => {
                            return Err(CompileError::UnsupportedConstruct);
                        },
                    };
                    let value = get_nth_method_input(func, n as u32)?;
                    if !value_fits(&value, &signature.params[n]) {
                        return Err(CompileError::TypeMismatch);
                    }
                    let ghost before = self.scope_view();
                    let tagged = (value, signature.params[n].clone());
                    self.bind(bound, tagged);
                    proof {
                        lemma_parameter_bound(
                            pre.module.types,
                            pre.scope,
                            args@,
                            n as int,
                            func,
                            before,
                            entry_view(tagged),
                        );
                    }
                    n += 1;
                }
                let ghost inner = self.scope_view();
                self.compile_body(&builder, module, body)?;
                let ghost end = state(*self, *module);
                if self.depth() <= depth {
                    return Err(CompileError::TypeMismatch);
                }
                match self.pop() {
                    Some(entry) => {
                        if !value_fits(&entry.0, &signature.result) {
                            return Err(CompileError::TypeMismatch);
                        }
                        match entry.0 {
                            Value::Int(x) => accepted(builder_return_int(&builder, x))?,
                            Value::Float(x) => accepted(builder_return_float(&builder, x))?,
                            _ => {
                                return Err(CompileError::TypeMismatch);
                            },
                        }
                    },
                    None => {
                        return Err(CompileError::TypeMismatch);
                    },
                }
                self.drop_above(depth);
                proof {
                    assert(names.take(0) =~= Seq::empty());
                    lemma_without_one_more(end.scope, Seq::empty(), names[0]);
                }
                let mut u: usize = 0;
                while u < args.len()
                    invariant
                        u <= args@.len(),
                        self.wf(),
                        self.module_pairs() == old(self).module_pairs(),
                        self.modules_view() == old(self).modules_view(),
                        self.stack_view() == pre.stack,
                        self.scope_view() =~= without(end.scope, names.take(u as int)),
                    decreases args@.len() - u,
                {
                    let bound = match &args[u] {
                        Node::FunctionArg { name: text, .. } => text.as_str(),
                        _ => {
                            return Err(CompileError::UnsupportedConstruct);
                        },
                    };
                    self.unbind(bound);
                    proof {
                        assert(names[u as int] == bound@);
                        assert(names.take(u + 1) =~= names.take(u as int).push(bound@));
                        lemma_without_one_more(end.scope, names.take(u as int), bound@);
                    }
                    u += 1;
                }
                proof {
                    assert(names.take(args@.len() as int) =~= names);
                    assert(compiles_upto(
                        inside(pre, name@, args@, return_type@, inner),
                        *body,
                        body.len() as int,
                        end,
                    ));
                    assert(end.stack.len() > pre.stack.len());
                    assert(fits(end.stack.last().value, return_type@));
                    assert(crate::backend::returned(end.stack.last().value));
                    assert(state(*self, *module) =~= (State {
                        module: end.module,
                        scope: without(end.scope, names),
                        stack: pre.stack,
                    }));
                    lemma_compiles_function(pre, *expr, inner, end, func, state(*self, *module));
                }
                Ok(())
            },
            _ => Err(CompileError::UnsupportedConstruct),
        }
    }
}

/// The type that a struct declaration describes, with each field's type
/// taken from the type table of `module`.
#[verifier::loop_isolation(false)]
pub fn resolve_struct<'a>(
    module: &Module<'a>,
    name: &str,
    supertype: &str,
    field_names: &Vec<String>,
    field_types: &Vec<String>,
) -> (r: Result<DataType, CompileError>)
    ensures
        field_names@.len() != field_types@.len() ==> r is Err && r->Err_0@
            == ErrorView::UnsupportedConstruct,
        field_names@.len() == field_types@.len() ==> match first_undeclared(
            module@.types,
            strings(field_types@),
            0,
        ) {
            Some(i) => r is Err && r->Err_0@ == ErrorView::UndefinedType(field_types@[i]@),
            None => r is Ok && r->Ok_0@ =~= struct_type(
                name@,
                supertype@,
                strings(field_names@),
                resolved(module@.types, strings(field_types@)),
            ),
        },
{
    if field_names.len() != field_types.len() {
        return Err(CompileError::UnsupportedConstruct);
    }
    let mut names: Vec<Symbol> = Vec::new();
    let mut i: usize = 0;
    while i < field_names.len()
        invariant
            i <= field_names@.len(),
            names@.len() == i,
            forall|k: int| 0 <= k < i ==> names@[k]@ == field_names@[k]@,
        decreases field_names@.len() - i,
    {
        names.push(Symbol::new(field_names[i].as_str()));
        i += 1;
    }
    let mut types: Vec<DataType> = Vec::new();
    let mut j: usize = 0;
    while j < field_types.len()
        invariant
            j <= field_types@.len(),
            types@.len() == j,
            first_undeclared(module@.types, strings(field_types@), 0) == first_undeclared(
                module@.types,
                strings(field_types@),
                j as int,
            ),
            forall|k: int|
                0 <= k < j ==> types@[k]@ == crate::module::declared_type(
                    module@.types,
                    field_types@[k]@,
                ),
        decreases field_types@.len() - j,
    {
        assert(strings(field_types@)[j as int] == field_types@[j as int]@);
        match module.get_type(field_types[j].as_str()) {
            Ok(found) => types.push(found.clone()),
            Err(e) => {
                return Err(e);
            },
        }
        j += 1;
    }
    proof {
        assert(symbol_names(names@) =~= strings(field_names@));
        assert(datatype_views(types@) =~= resolved(module@.types, strings(field_types@)));
    }
    Ok(
        DataType::new(
            Symbol::new(name),
            Symbol::new(supertype),
            false,
            false,
            false,
            names,
            Box::new(types),
        ),
    )
}

/// Appends the names of a list of symbol nodes to the export list of
/// `module`. A list with another kind of node in it is refused whole.
#[verifier::loop_isolation(false)]
pub fn export_all<'a>(module: &mut Module<'a>, symbols: &Vec<Node>) -> (r: Result<(), CompileError>)
    requires
        old(module).wf(),
    ensures
        final(module).wf(),
        final(module)@.name == old(module)@.name,
        final(module)@.types == old(module)@.types,
        final(module)@.functions == old(module)@.functions,
        first_other(symbols@, 0) is Some ==> r is Err && r->Err_0@
            == ErrorView::UnsupportedConstruct && final(module)@.exports == old(module)@.exports,
        first_other(symbols@, 0) is None ==> r is Ok && final(module)@.exports == old(
            module,
        )@.exports + symbols_of(symbols@),
{
    let mut i: usize = 0;
    while i < symbols.len()
        invariant
            i <= symbols@.len(),
            first_other(symbols@, 0) == first_other(symbols@, i as int),
        decreases symbols@.len() - i,
    {
        match &symbols[i] {
            Node::Symbol(_) => {},
            _ => {
                return Err(CompileError::UnsupportedConstruct);
            },
        }
        i += 1;
    }
    let mut j: usize = 0;
    while j < symbols.len()
        invariant
            j <= symbols@.len(),
            module.wf(),
            module@.name == old(module)@.name,
            module@.types == old(module)@.types,
            module@.functions == old(module)@.functions,
            first_other(symbols@, 0) is None,
            module@.exports == old(module)@.exports + symbols_of(symbols@).take(j as int),
        decreases symbols@.len() - j,
    {
        proof {
            lemma_all_symbols(symbols@, 0, j as int);
        }
        match &symbols[j] {
            Node::Symbol(text) => {
                module.push_export(Symbol::new(text.as_str()));
                assert(symbols_of(symbols@).take(j + 1) =~= symbols_of(symbols@).take(
                    j as int,
                ).push(text@));
            },
            _ => {
                assert(false);
            },
        }
        j += 1;
    }
    assert(symbols_of(symbols@).take(symbols@.len() as int) =~= symbols_of(symbols@));
    Ok(())
}

/// Where no node but a symbol is found, each node is a symbol.
pub proof fn lemma_all_symbols(nodes: Seq<Node>, from: int, at: int)
    requires
        0 <= from <= at < nodes.len(),
        first_other(nodes, from) is None,
    ensures
        symbol_of(nodes[at]) is Some,
    decreases at - from,
{
    if from < at {
        lemma_all_symbols(nodes, from + 1, at);
    }
}

} // verus!
