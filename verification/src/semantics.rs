use crate::ast::Node;
use crate::ast::Operator;
use crate::ast::Primitive;
use crate::backend::as_meta;
use crate::backend::declared_as;
use crate::backend::int_basic;
use crate::backend::int_function_type;
use crate::backend::int_type_width;
use crate::backend::is_parameter;
use crate::backend::return_built;
use crate::backend::returned;
use inkwell::types::FunctionType;
use inkwell::types::IntType;
use crate::backend::basic_argument;
use crate::backend::cast_of;
use crate::backend::emitted_call;
use crate::backend::float_type_name;
use crate::backend::found_as;
use crate::backend::int_extended;
use crate::backend::pointer_basic;
use crate::backend::type_of_function;
use crate::module::type_for;
use crate::primitive::holds_text;
use crate::primitive::prints;
use crate::primitive::text_bytes;
use inkwell::values::BasicMetadataValueEnum;
use inkwell::values::FunctionValue;
use inkwell::values::PointerValue;
use crate::backend::int_constant;
use crate::backend::int_difference;
use crate::backend::int_sum;
use crate::backend::int_value_width;
use crate::backend::Value;
use crate::assoc::key_index;
use crate::module::kinds_fault;
use crate::module::signature_of;
use crate::module::SignatureView;
use crate::primitive::carries;
use crate::primitive::integer_literal;
use crate::primitive::literal_bits;
use crate::primitive::literal_width;
use inkwell::values::IntValue;
use crate::bootstrap::abstract_type;
use crate::compiler::Compiler;
use crate::compiler::Entry;
use crate::datatype::scalar_of;
use crate::datatype::DataTypeView;
use crate::datatype::ScalarKind;
use crate::error::ErrorView;
use crate::module::declared_type;
use crate::module::declares;
use crate::module::linked_types;
use crate::module::Module;
use crate::module::ModuleView;
use crate::primitive::format_of;
use crate::primitive::literal_datatype;
use crate::primitive::primitive_type;
use vstd::prelude::*;

verus! {

/// What a compilation step reads and changes: the target module, the scope
/// and the operand stack.
#[verifier::ext_equal]
pub struct State<'a> {
    pub module: ModuleView,
    pub scope: Map<Seq<char>, Entry<'a>>,
    pub stack: Seq<Entry<'a>>,
}

/// The state that a compiler and a target module are in.
pub open spec fn state<'a>(compiler: Compiler<'a>, module: Module<'a>) -> State<'a> {
    State { module: module@, scope: compiler.scope_view(), stack: compiler.stack_view() }
}

/// The type that a parameter and the result of a call are tagged with.
pub open spec fn int64_type() -> DataTypeView {
    primitive_type("Int64"@, "Signed"@)
}

/// A list of strings as sequences of characters.
pub open spec fn strings(list: Seq<String>) -> Seq<Seq<char>> {
    Seq::new(list.len(), |i: int| list[i]@)
}

/// How many entries a node leaves on the operand stack when it compiles.
pub open spec fn produces(node: Node) -> nat
    decreases node,
{
    match node {
        Node::Primitive(_) | Node::Symbol(_) | Node::BinaryExpr { .. } | Node::MethodCall {
            ..
        } => 1,
        Node::ParenthesesExpr { expr } => produces(*expr),
        _ => 0,
    }
}

/// A node leaves at most one entry.
pub proof fn lemma_produces_at_most_one(node: Node)
    ensures
        produces(node) <= 1,
    decreases node,
{
    match node {
        Node::ParenthesesExpr { expr } => lemma_produces_at_most_one(*expr),
        _ => {},
    }
}

/// The description of a composite type.
pub open spec fn struct_type(
    name: Seq<char>,
    supertype: Seq<char>,
    field_names: Seq<Seq<char>>,
    field_types: Seq<DataTypeView>,
) -> DataTypeView {
    DataTypeView {
        name,
        supertype,
        is_abstract: false,
        is_mutable: false,
        is_primitive: false,
        field_names,
        field_types,
    }
}

/// The first name, from `from` on, that the type table does not hold.
pub open spec fn first_undeclared(types: Seq<DataTypeView>, names: Seq<Seq<char>>, from: int) -> Option<int>
    decreases names.len() - from,
{
    if from < 0 || from >= names.len() {
        None
    } else if !declares(types, names[from]) {
        Some(from)
    } else {
        first_undeclared(types, names, from + 1)
    }
}

/// The types that a list of names stands for in a type table.
pub open spec fn resolved(types: Seq<DataTypeView>, names: Seq<Seq<char>>) -> Seq<DataTypeView> {
    Seq::new(names.len(), |i: int| declared_type(types, names[i]))
}

/// The name of a symbol node.
pub open spec fn symbol_of(node: Node) -> Option<Seq<char>> {
    match node {
        Node::Symbol(name) => Some(name@),
        _ => None,
    }
}

/// The first node, from `from` on, that is no symbol.
pub open spec fn first_other(nodes: Seq<Node>, from: int) -> Option<int>
    decreases nodes.len() - from,
{
    if from < 0 || from >= nodes.len() {
        None
    } else if symbol_of(nodes[from]) is None {
        Some(from)
    } else {
        first_other(nodes, from + 1)
    }
}

/// The names of a list of symbol nodes.
pub open spec fn symbols_of(nodes: Seq<Node>) -> Seq<Seq<char>> {
    Seq::new(nodes.len(), |i: int| symbol_of(nodes[i]).unwrap())
}

/// The name that an argument of a call refers to: a call takes names that
/// are bound in scope, written as symbols or as arguments with a type.
pub open spec fn argument_name(node: Node) -> Option<Seq<char>> {
    match node {
        Node::Symbol(name) => Some(name@),
        Node::FunctionArg { name, .. } => Some(name@),
        _ => None,
    }
}

/// The name of a declared parameter.
pub open spec fn parameter_name(node: Node) -> Option<Seq<char>> {
    match node {
        Node::FunctionArg { name, .. } => Some(name@),
        _ => None,
    }
}

/// The name of the type of a declared parameter.
pub open spec fn parameter_type(node: Node) -> Option<Seq<char>> {
    match node {
        Node::FunctionArg { arg_type, .. } => Some(arg_type@),
        _ => None,
    }
}

/// The names of a list of declared parameters.
pub open spec fn parameter_names(args: Seq<Node>) -> Seq<Seq<char>> {
    Seq::new(args.len(), |i: int| parameter_name(args[i]).unwrap())
}

/// The names of the types of a list of declared parameters.
pub open spec fn parameter_types(args: Seq<Node>) -> Seq<Seq<char>> {
    Seq::new(args.len(), |i: int| parameter_type(args[i]).unwrap())
}

/// The first `upto` names, each led by an underscore but the first.
pub open spec fn joined(names: Seq<Seq<char>>, upto: int) -> Seq<char>
    decreases upto,
{
    if upto <= 0 {
        Seq::empty()
    } else if upto == 1 {
        names[0]
    } else {
        joined(names, upto - 1) + "_"@ + names[upto - 1]
    }
}

/// The name under which a function is declared in the backend: its base
/// name, an underscore, and the names of its parameters' types joined by
/// underscores.
pub open spec fn mangled_name(base: Seq<char>, kind_names: Seq<Seq<char>>) -> Seq<char> {
    base + "_"@ + joined(kind_names, kind_names.len() as int)
}

/// The state after a type has been declared, or the refusal of a name that
/// the type table holds already.
pub open spec fn declared<'a>(pre: State<'a>, datatype: DataTypeView) -> Result<State<'a>, ErrorView> {
    if declares(pre.module.types, datatype.name) {
        Err(ErrorView::DuplicateType(datatype.name))
    } else {
        Ok(
            State {
                module: ModuleView {
                    name: pre.module.name,
                    types: pre.module.types.push(datatype),
                    exports: pre.module.exports,
                    functions: pre.module.functions,
                },
                scope: pre.scope,
                stack: pre.stack,
            },
        )
    }
}

/// The outcome of the nodes that are compiled without the backend and
/// without other nodes: a type declaration, an export list, a reference to
/// a name, the empty node, and the nodes that are not compiled at all.
#[verifier::opaque]
pub open spec fn settled<'a>(pre: State<'a>, node: Node) -> Option<Result<State<'a>, ErrorView>> {
    match node {
        Node::Empty => Some(Ok(pre)),
        Node::AbstractType { name, supertype } => Some(
            declared(pre, abstract_type(name@, supertype@)),
        ),
        Node::PrimitiveType { name, supertype, bits } => Some(
            declared(pre, primitive_type(name@, supertype@)),
        ),
        Node::StructType { name, supertype, field_names, field_types } => Some(
            if field_names@.len() != field_types@.len() {
                Err(ErrorView::UnsupportedConstruct)
            } else {
                match first_undeclared(pre.module.types, strings(field_types@), 0) {
                    Some(i) => Err(ErrorView::UndefinedType(field_types@[i]@)),
                    None => declared(
                        pre,
                        struct_type(
                            name@,
                            supertype@,
                            strings(field_names@),
                            resolved(pre.module.types, strings(field_types@)),
                        ),
                    ),
                }
            },
        ),
        Node::Exports { symbols } => Some(
            if first_other(symbols@, 0) is Some {
                Err(ErrorView::UnsupportedConstruct)
            } else {
                Ok(
                    State {
                        module: ModuleView {
                            name: pre.module.name,
                            types: pre.module.types,
                            exports: pre.module.exports + symbols_of(symbols@),
                            functions: pre.module.functions,
                        },
                        scope: pre.scope,
                        stack: pre.stack,
                    },
                )
            },
        ),
        Node::Symbol(name) => Some(
            if pre.scope.dom().contains(name@) {
                Ok(
                    State {
                        module: pre.module,
                        scope: pre.scope,
                        stack: pre.stack.push(pre.scope[name@]),
                    },
                )
            } else {
                Err(ErrorView::UndefinedSymbol(name@))
            },
        ),
        Node::FunctionArg { .. }
        | Node::FunctionArgs { .. }
        | Node::Module { .. }
        | Node::StructField { .. }
        | Node::SuperType(_)
        | Node::UnaryExpr { .. } => Some(Err(ErrorView::UnsupportedConstruct)),
        _ => None,
    }
}

/// What is known of a compilation before the backend is asked.
#[verifier::ext_equal]
pub enum Decision<'a> {
    /// The backend has a say in the outcome.
    Open,
    /// The compilation fails with this error, whatever the backend answers;
    /// the state holds the module and the scope as the failure leaves them.
    Refused(ErrorView, State<'a>),
    /// The compilation succeeds and leads to this state.
    Done(State<'a>),
    /// The compilation succeeds and leaves module and scope as they are; it
    /// pushes the integer constant that this literal becomes.
    Constant(Primitive),
}

/// The instruction that an operator on two integers becomes.
#[derive(Clone, Copy, Debug, PartialEq, Eq, Structural)]
pub enum Arithmetic {
    Add,
    Subtract,
}

/// The fixed table from operators to instructions on integers: `+` adds,
/// `-` subtracts, and the other operators have none.
pub open spec fn arithmetic_of(op: Operator) -> Option<Arithmetic> {
    match op {
        Operator::Plus => Some(Arithmetic::Add),
        Operator::Minus => Some(Arithmetic::Subtract),
        _ => None,
    }
}

/// `result` is what the backend made of `lhs` and `rhs`, in this order,
/// with the given instruction.
pub open spec fn computes(which: Arithmetic, result: IntValue, lhs: IntValue, rhs: IntValue) -> bool {
    match which {
        Arithmetic::Add => int_sum(result, lhs, rhs),
        Arithmetic::Subtract => int_difference(result, lhs, rhs),
    }
}

/// What the rules for operators read of an operand: whether it is an
/// integer and, if so, of which width.
pub struct Operand {
    pub int: bool,
    pub width: u32,
}

/// What the rules for operators read of a stack entry.
pub open spec fn operand_of<'a>(entry: Entry<'a>) -> Operand {
    Operand {
        int: entry.value is Int,
        width: if entry.value is Int {
            int_value_width(entry.value->Int_0)
        } else {
            0
        },
    }
}

/// What the rules for operators read of the constant that an integer or a
/// character literal becomes.
pub open spec fn operand_of_literal(literal: Primitive) -> Operand {
    Operand { int: true, width: literal_width(literal) }
}

/// The fault of an operator on two operands: an operand that is no
/// integer, an operator without an instruction, or integers of different
/// widths, in this order.
pub open spec fn operands_fault(op: Operator, left: Operand, right: Operand) -> Option<ErrorView> {
    if !(left.int && right.int) {
        Some(ErrorView::TypeMismatch)
    } else if arithmetic_of(op) is None {
        Some(ErrorView::UnsupportedOperator(op))
    } else if left.width != right.width {
        Some(ErrorView::TypeMismatch)
    } else {
        None
    }
}

/// `result` is what an operator makes of two entries: the operands show no
/// fault, and the result is the integer that the operator's instruction
/// computes of the left and the right operand, of their width, tagged with
/// the type of the left one.
pub open spec fn combined<'a>(op: Operator, left: Entry<'a>, right: Entry<'a>, result: Entry<'a>) -> bool {
    &&& operands_fault(op, operand_of(left), operand_of(right)) is None
    &&& result.value is Int
    &&& computes(
        arithmetic_of(op).unwrap(),
        result.value->Int_0,
        left.value->Int_0,
        right.value->Int_0,
    )
    &&& int_value_width(result.value->Int_0) == int_value_width(left.value->Int_0)
    &&& result.datatype == left.datatype
}

/// The entry that a literal becomes: of the literal's type and kind; for
/// an integer or a character, the constant of the literal's width with the
/// literal's bits; for a float, the float of the literal's width with the
/// literal's bit pattern; for text, the address of stack storage that holds
/// the text's bytes, closed by a zero byte.
pub open spec fn literal_entry<'a>(literal: Primitive, entry: Entry<'a>) -> bool {
    &&& entry.datatype == literal_datatype(literal)
    &&& literal_kind(literal, entry)
    &&& integer_literal(literal) ==> int_value_width(entry.value->Int_0) == literal_width(literal)
        && int_constant(entry.value->Int_0) == Some(literal_bits(literal))
    &&& literal is String ==> holds_text(entry.value->Pointer_0, text_bytes(literal->String_0@))
    &&& literal is Float32 || literal is Float64 ==> fits(
        entry.value,
        literal_datatype(literal).name,
    ) && carries(entry.value->Float_0, literal_width(literal), literal_bits(literal))
}

/// What is decided of an operator on two operands that show no fault
/// before: the fault of the operands, or nothing.
pub open spec fn operator_decision<'a>(op: Operator, left: Operand, right: Operand, after: State<'a>) -> Decision<
    'a,
> {
    match operands_fault(op, left, right) {
        Some(e) => Decision::Refused(e, after),
        None => Decision::Open,
    }
}

/// What is decided of an assignment, given what is decided of its value.
pub open spec fn assignment_decision<'a>(pre: State<'a>, identifier: Seq<char>, value: Decision<'a>) -> Decision<
    'a,
> {
    match value {
        Decision::Done(mid) => if mid.stack.len() == pre.stack.len() + 1 {
            Decision::Done(
                State {
                    module: mid.module,
                    scope: mid.scope.insert(identifier, mid.stack.last()),
                    stack: pre.stack,
                },
            )
        } else {
            Decision::Refused(ErrorView::TypeMismatch, with_stack(mid, pre.stack))
        },
        Decision::Constant(_) => Decision::Open,
        other => other,
    }
}

/// What is decided of a sum or a difference, given what is decided of the
/// left operand and of the right one. A failure of an operand is the
/// failure of the whole; operands that are decided, or are integer
/// literals, decide the faults that `operands_fault` finds; whether the
/// instruction is built is the backend's to say.
pub open spec fn binary_decision<'a>(pre: State<'a>, op: Operator, left: Decision<'a>, right: Decision<'a>) -> Decision<
    'a,
> {
    match left {
        Decision::Done(a) => if a.stack.len() != pre.stack.len() + 1 {
            Decision::Refused(ErrorView::TypeMismatch, with_stack(a, pre.stack))
        } else {
            match right {
                Decision::Done(b) => if b.stack.len() != a.stack.len() + 1 {
                    Decision::Refused(ErrorView::TypeMismatch, with_stack(b, pre.stack))
                } else {
                    operator_decision(
                        op,
                        operand_of(a.stack.last()),
                        operand_of(b.stack.last()),
                        with_stack(b, pre.stack),
                    )
                },
                Decision::Constant(q) => operator_decision(
                    op,
                    operand_of(a.stack.last()),
                    operand_of_literal(q),
                    with_stack(a, pre.stack),
                ),
                Decision::Refused(e, left) => Decision::Refused(e, with_stack(left, pre.stack)),
                Decision::Open => Decision::Open,
            }
        },
        Decision::Constant(p) => match right {
            Decision::Done(b) => if b.stack.len() != pre.stack.len() + 1 {
                Decision::Refused(ErrorView::TypeMismatch, with_stack(b, pre.stack))
            } else {
                operator_decision(
                    op,
                    operand_of_literal(p),
                    operand_of(b.stack.last()),
                    with_stack(b, pre.stack),
                )
            },
            Decision::Constant(q) => operator_decision(
                op,
                operand_of_literal(p),
                operand_of_literal(q),
                pre,
            ),
            Decision::Refused(e, left) => Decision::Refused(e, with_stack(left, pre.stack)),
            Decision::Open => Decision::Open,
        },
        other => other,
    }
}

/// A decision as it stands where the operand stack `from` is replaced by
/// `onto`: what a compilation puts on top stays on top.
pub open spec fn rebased<'a>(decision: Decision<'a>, from: Seq<Entry<'a>>, onto: Seq<Entry<'a>>) -> Decision<
    'a,
> {
    match decision {
        Decision::Done(post) => Decision::Done(
            State {
                module: post.module,
                scope: post.scope,
                stack: onto + post.stack.skip(from.len() as int),
            },
        ),
        Decision::Refused(e, left) => Decision::Refused(e, with_stack(left, onto)),
        other => other,
    }
}

/// What is decided of a statement in a sequence: as of the node, but that
/// a constant left on the stack leaves the state open.
pub open spec fn statement_decision<'a>(node: Decision<'a>) -> Decision<'a> {
    match node {
        Decision::Constant(_) => Decision::Open,
        other => other,
    }
}

/// `state` with the operand stack `stack`.
pub open spec fn with_stack<'a>(state: State<'a>, stack: Seq<Entry<'a>>) -> State<'a> {
    State { module: state.module, scope: state.scope, stack }
}

/// What the arguments of a call are, from `from` on, read from the left:
/// names that are all bound, a name that is not bound, or an expression
/// that has to be compiled.
pub enum Arguments {
    Names,
    Unbound(Seq<char>),
    Expression,
}

/// What the arguments of a call are, from `from` on.
pub open spec fn arguments_kind<'a>(scope: Map<Seq<char>, Entry<'a>>, args: Seq<Node>, from: int) -> Arguments
    decreases args.len() - from,
{
    if from < 0 || from >= args.len() {
        Arguments::Names
    } else {
        match argument_name(args[from]) {
            None => Arguments::Expression,
            Some(name) => if !scope.dom().contains(name) {
                Arguments::Unbound(name)
            } else {
                arguments_kind(scope, args, from + 1)
            },
        }
    }
}

/// What the arguments of a call stand for where each is a bound name.
pub open spec fn bound_values<'a>(scope: Map<Seq<char>, Entry<'a>>, args: Seq<Node>) -> Seq<Entry<'a>> {
    Seq::new(args.len(), |i: int| scope[argument_name(args[i]).unwrap()])
}

/// Whether a value is of the scalar representation of the type called
/// `kind_name`: an integer of the type's width, a float of the type that
/// the backend calls `float` or `double`, or a pointer.
pub open spec fn fits<'a>(value: Value<'a>, kind_name: Seq<char>) -> bool {
    match scalar_of(kind_name) {
        Some(ScalarKind::Int32) => value is Int && int_value_width(value->Int_0) == 32,
        Some(ScalarKind::Int64) => value is Int && int_value_width(value->Int_0) == 64,
        Some(ScalarKind::Float32) => value is Float && float_type_name(value->Float_0)
            == "float"@,
        Some(ScalarKind::Float64) => value is Float && float_type_name(value->Float_0)
            == "double"@,
        Some(ScalarKind::String) => value is Pointer,
        None => false,
    }
}

/// The first value, from `from` on, that is not of the representation of
/// its parameter.
pub open spec fn first_misfit<'a>(values: Seq<Entry<'a>>, params: Seq<DataTypeView>, from: int) -> Option<int>
    decreases values.len() - from,
{
    if from < 0 || from >= values.len() || from >= params.len() {
        None
    } else if !fits(values[from].value, params[from].name) {
        Some(from)
    } else {
        first_misfit(values, params, from + 1)
    }
}

/// The fault of a call of a function with the given signature on the given
/// values: another number of values than the function takes, a value of
/// another representation than its parameter, or a signature that the
/// backend has no type for.
pub open spec fn signature_mismatch<'a>(values: Seq<Entry<'a>>, signature: SignatureView) -> Option<ErrorView> {
    if values.len() != signature.params.len() {
        Some(ErrorView::TypeMismatch)
    } else if first_misfit(values, signature.params, 0) is Some {
        Some(ErrorView::TypeMismatch)
    } else {
        kinds_fault(signature, 0)
    }
}

/// The fault of a call on the given values that shows before the backend
/// is asked: for the output routine, another number of values than one, a
/// value whose type has no format, or a symbol that is no pointer; for any
/// other name, that no function was declared under it, or a mismatch
/// between the values and the function's signature.
pub open spec fn call_fault<'a>(module: ModuleView, name: Seq<char>, values: Seq<Entry<'a>>) -> Option<ErrorView> {
    if name == "printf"@ {
        if values.len() != 1 {
            Some(ErrorView::UnsupportedConstruct)
        } else if format_of(values[0].datatype.name) is None {
            Some(ErrorView::UnsupportedPrimitive(values[0].datatype.name))
        } else if values[0].datatype.name == "Symbol"@ && !(values[0].value is Pointer) {
            Some(ErrorView::TypeMismatch)
        } else {
            None
        }
    } else {
        match signature_of(module.functions, name) {
            None => Some(ErrorView::UndefinedFunction(name)),
            Some(signature) => signature_mismatch(values, signature),
        }
    }
}

/// What is decided of a call before the backend is asked. A name that is
/// not bound, with only bound names before it, is refused. Of a call whose
/// arguments are all bound names the faults of `call_fault` are decided.
/// Where an argument is an expression, its compilation comes first and
/// nothing is decided.
pub open spec fn call_decision<'a>(pre: State<'a>, name: Seq<char>, args: Seq<Node>) -> Decision<'a> {
    match arguments_kind(pre.scope, args, 0) {
        Arguments::Unbound(missing) => Decision::Refused(ErrorView::UndefinedSymbol(missing), pre),
        Arguments::Expression => Decision::Open,
        Arguments::Names => match call_fault(pre.module, name, bound_values(pre.scope, args)) {
            Some(e) => Decision::Refused(e, pre),
            None => Decision::Open,
        },
    }
}

/// Whether `argument` is a value as it is handed to a function of the
/// function table: text by its address, seen as a pointer to bytes, any
/// other value as it is.
pub open spec fn handed_as<'a>(argument: BasicMetadataValueEnum<'a>, value: Value<'a>) -> bool {
    match value {
        Value::Pointer(text) => exists|bytes: PointerValue<'a>|
            #[trigger] cast_of(bytes, text) && argument == basic_argument(pointer_basic(bytes)),
        other => argument == as_meta(other),
    }
}

/// Whether `result` is what a call returned of the function that the
/// backend holds under `name` with the type of `signature`, on `values` in
/// their order.
pub open spec fn called<'a>(
    name: Seq<char>,
    signature: SignatureView,
    values: Seq<Entry<'a>>,
    result: Value<'a>,
) -> bool {
    exists|function: FunctionValue<'a>, args: Seq<BasicMetadataValueEnum<'a>>|
        #![trigger emitted_call(function, args, result)]
        found_as(function, name) && type_for(signature, type_of_function(function)) && args.len()
            == values.len() && (forall|k: int|
            0 <= k < args.len() ==> handed_as(#[trigger] args[k], values[k].value))
            && emitted_call(function, args, result)
}

/// Whether `result` is the integer `raw`, widened to 64 bits where it is
/// narrower.
pub open spec fn widened<'a>(raw: Value<'a>, result: Value<'a>) -> bool {
    raw is Int && result is Int && (raw == result || int_extended(result->Int_0, raw->Int_0))
}

/// What a call pushes. For the output routine: the count that a call of it
/// returned on the one value, printed as `prints` says, widened to 64 bits
/// and tagged as a 64-bit signed integer. For a function: what a call of it
/// returned on the values in their order, of the representation of the
/// declared result and tagged with that type.
pub open spec fn call_pushes<'a>(
    module: ModuleView,
    name: Seq<char>,
    values: Seq<Entry<'a>>,
    result: Entry<'a>,
) -> bool {
    if name == "printf"@ {
        values.len() == 1 && result.datatype == int64_type() && fits(
            result.value,
            int64_type().name,
        ) && exists|raw: Value<'a>|
            #![trigger prints(values[0].value, values[0].datatype.name, raw)]
            prints(values[0].value, values[0].datatype.name, raw) && widened(raw, result.value)
    } else {
        signature_of(module.functions, name) matches Some(signature) && result.datatype
            == signature.result && fits(result.value, signature.result.name) && called(
            name,
            signature,
            values,
            result.value,
        )
    }
}

/// The signature that a function definition declares: the declared types
/// of its parameters and of its result, as the type table holds them.
pub open spec fn declared_signature(types: Seq<DataTypeView>, args: Seq<Node>, return_type: Seq<char>) -> SignatureView {
    SignatureView {
        params: Seq::new(
            args.len(),
            |i: int| declared_type(types, parameter_type(args[i]).unwrap()),
        ),
        result: declared_type(types, return_type),
    }
}

/// The module after a function has been declared in it.
pub open spec fn with_function(module: ModuleView, name: Seq<char>, signature: SignatureView) -> ModuleView {
    ModuleView {
        name: module.name,
        types: module.types,
        exports: module.exports,
        functions: module.functions.push((name, signature)),
    }
}

/// Whether `function` is what the backend gave when the function of a
/// definition was declared: under its mangled name, with the type of its
/// declared signature.
pub open spec fn defined_as<'a>(
    pre: State<'a>,
    name: Seq<char>,
    args: Seq<Node>,
    return_type: Seq<char>,
    function: FunctionValue<'a>,
) -> bool {
    declared_as(function, mangled_name(name, parameter_types(args))) && type_for(
        declared_signature(pre.module.types, args, return_type),
        type_of_function(function),
    )
}

/// Whether a function type of the backend is that of `main`: it takes
/// nothing and returns a 32-bit integer.
pub open spec fn main_type<'a>(ty: FunctionType<'a>) -> bool {
    exists|integer: IntType<'a>|
        #[trigger] int_function_type(ty, integer, Seq::empty(), false) && int_type_width(integer)
            == 32
}

/// Whether `function` is what the backend gave when `main` was declared,
/// under that name and with the type of `main`, and `zero`, the 32-bit
/// constant 0, is what it returns.
pub open spec fn main_emitted<'a>(function: FunctionValue<'a>, zero: IntValue<'a>) -> bool {
    declared_as(function, "main"@) && main_type(type_of_function(function)) && return_built(
        int_basic(zero),
    ) && int_value_width(zero) == 32 && int_constant(zero) == Some(0u64)
}

/// The state in which the statements of a function are compiled: the
/// function is declared, under its mangled name, and `inner` is the scope.
pub open spec fn inside<'a>(
    pre: State<'a>,
    name: Seq<char>,
    args: Seq<Node>,
    return_type: Seq<char>,
    inner: Map<Seq<char>, Entry<'a>>,
) -> State<'a> {
    State {
        module: with_function(
            pre.module,
            mangled_name(name, parameter_types(args)),
            declared_signature(pre.module.types, args, return_type),
        ),
        scope: inner,
        stack: pre.stack,
    }
}

/// The first fault among the declared parameters, from `from` on: a node
/// that is no parameter, or a parameter of a type that is not declared.
pub open spec fn parameter_fault(types: Seq<DataTypeView>, args: Seq<Node>, from: int) -> Option<ErrorView>
    decreases args.len() - from,
{
    if from < 0 || from >= args.len() {
        None
    } else {
        match parameter_type(args[from]) {
            None => Some(ErrorView::UnsupportedConstruct),
            Some(name) => if !declares(types, name) {
                Some(ErrorView::UndefinedType(name))
            } else {
                parameter_fault(types, args, from + 1)
            },
        }
    }
}

/// The first parameter, from `from` on, whose type has no scalar
/// representation.
pub open spec fn scalar_fault(args: Seq<Node>, from: int) -> Option<ErrorView>
    decreases args.len() - from,
{
    if from < 0 || from >= args.len() {
        None
    } else {
        match parameter_type(args[from]) {
            Some(name) if scalar_of(name) is Some => scalar_fault(args, from + 1),
            Some(name) => Some(ErrorView::UnsupportedPrimitive(name)),
            None => Some(ErrorView::UnsupportedConstruct),
        }
    }
}

/// The fault of a function's signature: too many parameters, a fault among
/// the parameters, a return type that is not declared, a type without a
/// scalar representation, or a return type that is no number.
pub open spec fn signature_fault(types: Seq<DataTypeView>, args: Seq<Node>, return_type: Seq<char>) -> Option<
    ErrorView,
> {
    if args.len() >= u32::MAX {
        Some(ErrorView::UnsupportedConstruct)
    } else if parameter_fault(types, args, 0) is Some {
        parameter_fault(types, args, 0)
    } else if !declares(types, return_type) {
        Some(ErrorView::UndefinedType(return_type))
    } else if scalar_fault(args, 0) is Some {
        scalar_fault(args, 0)
    } else if scalar_of(return_type) is None {
        Some(ErrorView::UnsupportedPrimitive(return_type))
    } else if scalar_of(return_type) == Some(ScalarKind::String) {
        Some(ErrorView::TypeMismatch)
    } else {
        None
    }
}

/// What is decided of the compilation of `node` before the backend is
/// asked. The outcome of a declaration, an export list and a reference to
/// a name is decided whole; so is that of an assignment or of a node in
/// parentheses whose inner node is decided. Of a sum, a call and a function
/// the faults are decided that show before the backend is asked.
#[verifier::opaque]
pub open spec fn decided<'a>(pre: State<'a>, node: Node) -> Decision<'a>
    decreases node,
{
    match node {
        Node::ParenthesesExpr { expr } => decided(pre, *expr),
        Node::AssignmentExpr { identifier, value } => assignment_decision(
            pre,
            identifier@,
            decided(pre, *value),
        ),
        Node::BinaryExpr { op, lhs, rhs } => binary_decision(
            pre,
            op,
            decided(pre, *lhs),
            match decided(pre, *lhs) {
                Decision::Done(a) => decided(a, *rhs),
                _ => decided(pre, *rhs),
            },
        ),
        Node::MethodCall { name, args } => call_decision(pre, name@, args@),
        Node::Function { name, args, return_type, body } => if name@ == "main"@ {
            Decision::Open
        } else {
            match signature_fault(pre.module.types, args@, return_type@) {
                Some(e) => Decision::Refused(e, pre),
                None => Decision::Open,
            }
        },
        Node::Primitive(literal) => if integer_literal(literal) {
            Decision::Constant(literal)
        } else {
            Decision::Open
        },
        _ => match settled(pre, node) {
            Some(Ok(post)) => Decision::Done(post),
            Some(Err(e)) => Decision::Refused(e, pre),
            None => Decision::Open,
        },
    }
}

/// Whether a compilation is sure to succeed: where it is decided to, and
/// where an integer or a character literal, which the backend makes into a
/// constant without fail, is compiled or assigned.
pub open spec fn sure<'a>(pre: State<'a>, node: Node) -> bool
    decreases node,
{
    match node {
        Node::Primitive(literal) => literal is Char || literal is Int16 || literal is Int32
            || literal is Int64,
        Node::ParenthesesExpr { expr } => sure(pre, *expr),
        Node::AssignmentExpr { identifier, value } => sure(pre, *value) && produces(*value) == 1,
        _ => decided(pre, node) is Done,
    }
}

/// What is decided of a node in parentheses is what is decided of the node.
pub proof fn lemma_decided_parentheses<'a>(pre: State<'a>, node: Node)
    requires
        node is ParenthesesExpr,
    ensures
        decided(pre, node) == decided(pre, *node->expr),
{
    reveal(decided);
}

/// What is decided of an assignment follows what is decided of its value.
pub proof fn lemma_decided_assignment<'a>(pre: State<'a>, node: Node)
    requires
        node is AssignmentExpr,
    ensures
        decided(pre, node) == assignment_decision(
            pre,
            node->identifier@,
            decided(pre, *node->value),
        ),
{
    reveal(decided);
}

/// What is decided of a sum or a difference follows what is decided of its
/// operands. The right operand is compiled after the left one: from the
/// state that the left one is decided to lead to, or, where the left one is
/// a literal that leaves module and scope as they are, from a state that
/// differs from the first in the operand stack alone.
pub proof fn lemma_decided_binary<'a>(pre: State<'a>, node: Node)
    requires
        node is BinaryExpr,
    ensures
        decided(pre, node) == binary_decision(
            pre,
            node->BinaryExpr_op,
            decided(pre, *node->lhs),
            match decided(pre, *node->lhs) {
                Decision::Done(a) => decided(a, *node->rhs),
                _ => decided(pre, *node->rhs),
            },
        ),
{
    reveal(decided);
}

/// Whether a node is decided to become a constant does not depend on the
/// state: only a literal, in parentheses or not, becomes one.
pub proof fn lemma_constant_anywhere<'a>(one: State<'a>, other: State<'a>, node: Node)
    ensures
        decided(one, node) is Constant <==> decided(other, node) is Constant,
        decided(one, node) is Constant ==> decided(one, node) == decided(other, node)
            && integer_literal(decided(one, node)->Constant_0),
    decreases node,
{
    reveal(decided);
    match node {
        Node::ParenthesesExpr { expr } => {
            lemma_constant_anywhere(one, other, *expr);
        },
        _ => {},
    }
}

/// What is decided of a node does not depend on what lies on the operand
/// stack: on another stack the same is decided, with what the compilation
/// puts on top on top of the other stack.
pub proof fn lemma_decided_on_another_stack<'a>(pre: State<'a>, onto: Seq<Entry<'a>>, node: Node)
    ensures
        decided(with_stack(pre, onto), node) == rebased(decided(pre, node), pre.stack, onto),
    decreases node,
{
    let other = with_stack(pre, onto);
    let here = decided(pre, node);
    let there = decided(other, node);
    lemma_decided_is_sound(pre, node);
    assert(pre.stack.skip(pre.stack.len() as int) =~= Seq::<Entry<'a>>::empty());
    assert(onto + Seq::<Entry<'a>>::empty() =~= onto);
    match node {
        Node::ParenthesesExpr { expr } => {
            lemma_decided_parentheses(pre, node);
            lemma_decided_parentheses(other, node);
            lemma_decided_on_another_stack(pre, onto, *expr);
        },
        Node::AssignmentExpr { identifier, value } => {
            lemma_decided_assignment(pre, node);
            lemma_decided_assignment(other, node);
            lemma_decided_on_another_stack(pre, onto, *value);
            lemma_decided_is_sound(pre, *value);
            lemma_produces_at_most_one(*value);
            if decided(pre, *value) is Done {
                let mid = decided(pre, *value)->Done_0;
                let top = mid.stack.skip(pre.stack.len() as int);
                if mid.stack.len() == pre.stack.len() + 1 {
                    assert((onto + top).last() == mid.stack.last());
                }
            }
            assert(there =~~= rebased(here, pre.stack, onto));
        },
        Node::BinaryExpr { op, lhs, rhs } => {
            lemma_decided_binary(pre, node);
            lemma_decided_binary(other, node);
            lemma_decided_on_another_stack(pre, onto, *lhs);
            lemma_decided_on_another_stack(pre, onto, *rhs);
            lemma_decided_is_sound(pre, *lhs);
            lemma_decided_is_sound(pre, *rhs);
            lemma_produces_at_most_one(*lhs);
            lemma_produces_at_most_one(*rhs);
            match decided(pre, *lhs) {
                Decision::Done(a) => {
                    let top = a.stack.skip(pre.stack.len() as int);
                    let a2 = State { module: a.module, scope: a.scope, stack: onto + top };
                    assert(decided(other, *lhs) == Decision::Done(a2));
                    if a.stack.len() == pre.stack.len() + 1 {
                        assert(a2.stack.last() == a.stack.last());
                        lemma_decided_on_another_stack(a, a2.stack, *rhs);
                        lemma_decided_is_sound(a, *rhs);
                        assert(with_stack(a, a2.stack) =~= a2);
                        assert(a.stack.skip(a.stack.len() as int) =~= Seq::<Entry<'a>>::empty());
                        if decided(a, *rhs) is Done {
                            let b = decided(a, *rhs)->Done_0;
                            if b.stack.len() == a.stack.len() + 1 {
                                assert((a2.stack + b.stack.skip(a.stack.len() as int)).last()
                                    == b.stack.last());
                            }
                        }
                    }
                },
                Decision::Constant(p) => {
                    if decided(pre, *rhs) is Done {
                        let b = decided(pre, *rhs)->Done_0;
                        if b.stack.len() == pre.stack.len() + 1 {
                            assert((onto + b.stack.skip(pre.stack.len() as int)).last()
                                == b.stack.last());
                        }
                    }
                },
                _ => {},
            }
            assert(there =~~= rebased(here, pre.stack, onto));
        },
        Node::MethodCall { .. } => {
            lemma_decided_call(pre, node);
            lemma_decided_call(other, node);
            assert(there =~~= rebased(here, pre.stack, onto));
        },
        Node::Function { .. } => {
            lemma_decided_function(pre, node);
            lemma_decided_function(other, node);
            assert(there =~~= rebased(here, pre.stack, onto));
        },
        Node::Primitive(_) => {
            lemma_decided_primitive(pre, node);
            lemma_decided_primitive(other, node);
        },
        _ => {
            lemma_decided_settled(pre, node);
            lemma_decided_settled(other, node);
            reveal(settled);
            assert(there =~~= rebased(here, pre.stack, onto)) by {
                if here is Done {
                    let post = here->Done_0;
                    assert(onto + post.stack.skip(pre.stack.len() as int)
                        =~= there->Done_0.stack);
                }
            }
        },
    }
}

/// Of a call, the faults are decided that show before the backend is asked
/// and before an argument is compiled.
pub proof fn lemma_decided_call<'a>(pre: State<'a>, node: Node)
    requires
        node is MethodCall,
    ensures
        decided(pre, node) == call_decision(pre, node->MethodCall_name@, node->MethodCall_args@),
{
    reveal(decided);
}

/// Of a function, the faults of the signature are decided; of `main`,
/// nothing is.
pub proof fn lemma_decided_function<'a>(pre: State<'a>, node: Node)
    requires
        node is Function,
    ensures
        decided(pre, node) == if node->Function_name@ == "main"@ {
            Decision::Open
        } else {
            match signature_fault(pre.module.types, node->Function_args@, node->return_type@) {
                Some(e) => Decision::Refused(e, pre),
                None => Decision::Open,
            }
        },
{
    reveal(decided);
}

/// An integer or a character literal is decided to become its constant; of
/// a float or of text nothing is decided, because the backend builds them.
pub proof fn lemma_decided_primitive<'a>(pre: State<'a>, node: Node)
    requires
        node is Primitive,
    ensures
        decided(pre, node) == if integer_literal(node->Primitive_0) {
            Decision::<'a>::Constant(node->Primitive_0)
        } else {
            Decision::<'a>::Open
        },
{
    reveal(decided);
}

/// What is decided of a node that is compiled without the backend and
/// without other nodes is its outcome.
pub proof fn lemma_decided_settled<'a>(pre: State<'a>, node: Node)
    requires
        !asks_backend(node),
    ensures
        decided(pre, node) == match settled(pre, node) {
            Some(Ok(post)) => Decision::Done(post),
            Some(Err(e)) => Decision::Refused(e, pre),
            None => Decision::Open,
        },
{
    reveal(decided);
}

/// Where the arguments of a call are bound names, each is one.
pub proof fn lemma_arguments_are_names<'a>(scope: Map<Seq<char>, Entry<'a>>, args: Seq<Node>, from: int)
    requires
        0 <= from,
        arguments_kind(scope, args, from) is Names,
    ensures
        forall|i: int|
            from <= i < args.len() ==> argument_name(#[trigger] args[i]) is Some
                && scope.dom().contains(argument_name(args[i]).unwrap()),
    decreases args.len() - from,
{
    if from < args.len() {
        lemma_arguments_are_names(scope, args, from + 1);
    }
}

/// Where the parameters show no fault, each has a name and a declared type
/// with a scalar representation.
pub proof fn lemma_no_parameter_fault(types: Seq<DataTypeView>, args: Seq<Node>, from: int)
    requires
        0 <= from,
        parameter_fault(types, args, from) is None,
        scalar_fault(args, from) is None,
    ensures
        forall|i: int|
            from <= i < args.len() ==> parameter_name(#[trigger] args[i]) is Some && declares(
                types,
                parameter_type(args[i]).unwrap(),
            ) && scalar_of(parameter_type(args[i]).unwrap()) is Some,
    decreases args.len() - from,
{
    if from < args.len() {
        lemma_no_parameter_fault(types, args, from + 1);
    }
}

/// The kind of the value that a literal becomes: a float for a float, the
/// address of the bytes for text, an integer for the rest.
pub open spec fn literal_kind<'a>(literal: Primitive, entry: Entry<'a>) -> bool {
    match literal {
        Primitive::Float32(_) | Primitive::Float64(_) => entry.value is Float,
        Primitive::String(_) => entry.value is Pointer,
        _ => entry.value is Int,
    }
}

/// `post` is `pre` with one entry more on the operand stack.
pub open spec fn pushes_one<'a>(pre: State<'a>, post: State<'a>) -> bool {
    &&& post.module =~= pre.module
    &&& post.scope =~= pre.scope
    &&& post.stack.len() == pre.stack.len() + 1
    &&& post.stack.drop_last() =~= pre.stack
}

/// Every parameter is declared with a name and with a type that the type
/// table holds and that has a scalar representation.
pub open spec fn parameters_declared(types: Seq<DataTypeView>, args: Seq<Node>) -> bool {
    forall|i: int|
        0 <= i < args.len() ==> parameter_name(#[trigger] args[i]) is Some && declares(
            types,
            parameter_type(args[i]).unwrap(),
        ) && scalar_of(parameter_type(args[i]).unwrap()) is Some
}

/// A function returns an integer or a float.
pub open spec fn returns_number(return_type: Seq<char>) -> bool {
    scalar_of(return_type) is Some && scalar_of(return_type) != Some(ScalarKind::String)
}

/// What a parameter is bound to: a value of the representation of its
/// declared type, tagged with that type.
pub open spec fn parameter_entry<'a>(types: Seq<DataTypeView>, parameter: Node, entry: Entry<'a>) -> bool {
    entry.datatype == declared_type(types, parameter_type(parameter).unwrap()) && fits(
        entry.value,
        parameter_type(parameter).unwrap(),
    )
}

/// `inner` is the scope `outer` with the first `upto` parameters bound on
/// top: each name to the parameter of `function` at the position of a
/// parameter of that name, tagged with the declared type.
pub open spec fn parameters_bound<'a>(
    types: Seq<DataTypeView>,
    outer: Map<Seq<char>, Entry<'a>>,
    args: Seq<Node>,
    upto: int,
    function: FunctionValue<'a>,
    inner: Map<Seq<char>, Entry<'a>>,
) -> bool {
    let names = parameter_names(args).take(upto);
    &&& forall|n: Seq<char>|
        #![trigger inner.dom().contains(n)]
        inner.dom().contains(n) <==> outer.dom().contains(n) || names.contains(n)
    &&& forall|n: Seq<char>|
        outer.dom().contains(n) && !names.contains(n) ==> #[trigger] inner[n] == outer[n]
    &&& forall|n: Seq<char>|
        names.contains(n) ==> exists|i: int|
            0 <= i < upto && parameter_name(#[trigger] args[i]) == Some(n) && parameter_entry(
                types,
                args[i],
                inner[n],
            ) && is_parameter(inner[n].value, function, i as u32)
}

/// One more parameter bound keeps the parameters bound.
pub proof fn lemma_parameter_bound<'a>(
    types: Seq<DataTypeView>,
    outer: Map<Seq<char>, Entry<'a>>,
    args: Seq<Node>,
    upto: int,
    function: FunctionValue<'a>,
    inner: Map<Seq<char>, Entry<'a>>,
    entry: Entry<'a>,
)
    requires
        0 <= upto < args.len(),
        parameter_name(args[upto]) is Some,
        parameters_bound(types, outer, args, upto, function, inner),
        parameter_entry(types, args[upto], entry),
        is_parameter(entry.value, function, upto as u32),
    ensures
        parameters_bound(
            types,
            outer,
            args,
            upto + 1,
            function,
            inner.insert(parameter_name(args[upto]).unwrap(), entry),
        ),
{
    let name = parameter_name(args[upto]).unwrap();
    let names = parameter_names(args).take(upto);
    let longer = parameter_names(args).take(upto + 1);
    let after = inner.insert(name, entry);
    assert(longer =~= names.push(name));
    assert forall|m: Seq<char>| longer.contains(m) <==> names.contains(m) || m == name by {
        if names.contains(m) {
            let k = choose|k: int| 0 <= k < names.len() && names[k] == m;
            assert(longer[k] == m);
        }
        if m == name {
            assert(longer[names.len() as int] == m);
        }
    }
    assert forall|m: Seq<char>|
        #![trigger after.dom().contains(m)]
        after.dom().contains(m) <==> outer.dom().contains(m) || longer.contains(m) by {
        assert(longer.contains(m) <==> names.contains(m) || m == name);
        assert(inner.dom().contains(m) <==> outer.dom().contains(m) || names.contains(m));
    }
    assert forall|m: Seq<char>| outer.dom().contains(m) && !longer.contains(m) implies #[trigger] after[m]
        == outer[m] by {
        assert(longer.contains(m) <==> names.contains(m) || m == name);
        assert(inner[m] == outer[m]);
    }
    assert forall|m: Seq<char>| longer.contains(m) implies exists|i: int|
        0 <= i < upto + 1 && parameter_name(#[trigger] args[i]) == Some(m) && parameter_entry(
            types,
            args[i],
            after[m],
        ) && is_parameter(after[m].value, function, i as u32) by {
        assert(longer.contains(m) <==> names.contains(m) || m == name);
        if m != name {
            let i = choose|i: int|
                0 <= i < upto && parameter_name(#[trigger] args[i]) == Some(m) && parameter_entry(
                    types,
                    args[i],
                    inner[m],
                ) && is_parameter(inner[m].value, function, i as u32);
            assert(parameter_name(args[i]) == Some(m) && parameter_entry(types, args[i], after[m])
                && is_parameter(after[m].value, function, i as u32));
        } else {
            assert(parameter_name(args[upto]) == Some(m) && parameter_entry(
                types,
                args[upto],
                after[m],
            ) && is_parameter(after[m].value, function, upto as u32));
        }
    }
}

/// No parameter bound leaves the scope as it is.
pub proof fn lemma_no_parameter_bound<'a>(
    types: Seq<DataTypeView>,
    outer: Map<Seq<char>, Entry<'a>>,
    args: Seq<Node>,
    function: FunctionValue<'a>,
)
    ensures
        parameters_bound(types, outer, args, 0, function, outer),
{
    assert(parameter_names(args).take(0) =~= Seq::empty());
}

/// One more name taken out of a scope.
pub proof fn lemma_without_one_more<'a>(
    scope: Map<Seq<char>, Entry<'a>>,
    names: Seq<Seq<char>>,
    name: Seq<char>,
)
    ensures
        without(scope, names).remove(name) =~= without(scope, names.push(name)),
        without(scope, Seq::empty()) =~= scope,
{
    let longer = names.push(name);
    assert forall|m: Seq<char>| longer.contains(m) <==> names.contains(m) || m == name by {
        if names.contains(m) {
            let k = choose|k: int| 0 <= k < names.len() && names[k] == m;
            assert(longer[k] == m);
        }
        if m == name {
            assert(longer[names.len() as int] == m);
        }
    }
}

/// Holds of every state: a handle by which a state in the middle of a
/// compilation is pointed out.
pub open spec fn passes<'a>(through: State<'a>) -> bool {
    true
}

/// A scope without the bindings of the given names.
pub open spec fn without<'a>(scope: Map<Seq<char>, Entry<'a>>, names: Seq<Seq<char>>) -> Map<
    Seq<char>,
    Entry<'a>,
> {
    Map::new(|n: Seq<char>| scope.dom().contains(n) && !names.contains(n), |n: Seq<char>| scope[n])
}

/// What a successful compilation of `node` does: it leads from `pre` to
/// `post`. Where the backend hands back a value, the relation leaves the
/// value open and fixes its kind and the type it is tagged with.
#[verifier::opaque]
pub open spec fn compiles<'a>(pre: State<'a>, node: Node, post: State<'a>) -> bool
    decreases node, 0nat,
{
    match node {
        Node::AssignmentExpr { identifier, value } => produces(*value) == 1 && exists|
            mid: State<'a>,
        |
            #[trigger] passes(mid) && compiles(pre, *value, mid) && post =~= (State {
                module: mid.module,
                scope: mid.scope.insert(identifier@, mid.stack.last()),
                stack: pre.stack,
            }),
        Node::BinaryExpr { op, lhs, rhs } => produces(*lhs) == 1 && produces(*rhs) == 1 && exists|
            a: State<'a>,
            b: State<'a>,
        |
            #![trigger passes(a), passes(b)]
            passes(a) && passes(b) && compiles(pre, *lhs, a) && compiles(a, *rhs, b)
                && post.module =~= b.module && post.scope =~= b.scope && post.stack.len()
                == pre.stack.len() + 1 && post.stack.drop_last() =~= pre.stack && combined(
                op,
                a.stack.last(),
                b.stack.last(),
                post.stack.last(),
            ),
        Node::Function { name, args, return_type, body } => if name@ == "main"@ {
            exists|end: State<'a>, function: FunctionValue<'a>, zero: IntValue<'a>|
                #![trigger passes(end), main_emitted(function, zero)]
                passes(end) && main_emitted(function, zero) && compiles_upto(
                    pre,
                    body,
                    body.len() as int,
                    end,
                ) && post =~= (State { module: end.module, scope: end.scope, stack: pre.stack })
        } else {
            parameters_declared(pre.module.types, args@) && declares(
                pre.module.types,
                return_type@,
            ) && returns_number(return_type@) && exists|
                inner: Map<Seq<char>, Entry<'a>>,
                end: State<'a>,
                function: FunctionValue<'a>,
            |
                #![trigger passes(inside(pre, name@, args@, return_type@, inner)), passes(end), defined_as(pre, name@, args@, return_type@, function)]
                defined_as(pre, name@, args@, return_type@, function) && returned(
                    end.stack.last().value,
                ) && parameters_bound(
                    pre.module.types,
                    pre.scope,
                    args@,
                    args@.len() as int,
                    function,
                    inner,
                ) && compiles_upto(
                    inside(pre, name@, args@, return_type@, inner),
                    body,
                    body.len() as int,
                    end,
                ) && end.stack.len() > pre.stack.len() && fits(
                    end.stack.last().value,
                    return_type@,
                ) && post =~= (State {
                    module: end.module,
                    scope: without(end.scope, parameter_names(args@)),
                    stack: pre.stack,
                })
        },
        Node::MethodCall { name, args } => calls(pre, name@, args, post),
        Node::ParenthesesExpr { expr } => compiles(pre, *expr, post),
        Node::Primitive(literal) => pushes_one(pre, post) && literal_entry(
            literal,
            post.stack.last(),
        ),
        _ => match settled(pre, node) {
            Some(Ok(to)) => post =~= to,
            _ => false,
        },
    }
}

/// Holds of every sequence of values: a handle by which the values of the
/// arguments of a call are pointed out.
pub open spec fn handed<'a>(values: Seq<Entry<'a>>) -> bool {
    true
}

/// What a successful evaluation of the first `upto` arguments of a call
/// does, from the left: it leads from `pre` to `post` and gives `values`.
/// A name stands for what it is bound to; any other argument is compiled,
/// must leave one value, and that value is taken from the operand stack.
#[verifier::opaque]
pub open spec fn evaluates<'a>(
    pre: State<'a>,
    args: Vec<Node>,
    upto: int,
    post: State<'a>,
    values: Seq<Entry<'a>>,
) -> bool
    decreases args, upto,
{
    if upto <= 0 || upto > args.len() {
        post =~= pre && values =~= Seq::empty()
    } else {
        values.len() == upto && exists|mid: State<'a>, after: State<'a>|
            #![trigger passes(mid), passes(after)]
            passes(mid) && passes(after) && evaluates(pre, args, upto - 1, mid, values.drop_last())
                && match argument_name(args[upto - 1]) {
                Some(bound) => mid.scope.dom().contains(bound) && values.last() == mid.scope[bound]
                    && post =~= mid,
                None => produces(args[upto - 1]) == 1 && compiles(mid, args[upto - 1], after)
                    && values.last() == after.stack.last() && post =~= with_stack(
                    after,
                    mid.stack,
                ),
            }
    }
}

/// What a successful call does: the arguments are evaluated, from the
/// left; the values show no fault; and what the call returns is pushed.
#[verifier::opaque]
pub open spec fn calls<'a>(pre: State<'a>, name: Seq<char>, args: Vec<Node>, post: State<'a>) -> bool
    decreases args, args.len() + 1,
{
    exists|mid: State<'a>, values: Seq<Entry<'a>>|
        #![trigger passes(mid), handed(values)]
        passes(mid) && handed(values) && evaluates(pre, args, args.len() as int, mid, values)
            && call_fault(mid.module, name, values) is None && post.module =~= mid.module
            && post.scope =~= mid.scope && post.stack.len() == pre.stack.len() + 1
            && post.stack.drop_last() =~= pre.stack && call_pushes(
            mid.module,
            name,
            values,
            post.stack.last(),
        )
}

/// What a successful compilation of the first `upto` statements of `body`
/// does, one after the other: it leads from `pre` to `post`.
#[verifier::opaque]
pub open spec fn compiles_upto<'a>(pre: State<'a>, body: Vec<Node>, upto: int, post: State<'a>) -> bool
    decreases body, upto,
{
    if upto <= 0 || upto > body.len() {
        post =~= pre
    } else {
        exists|mid: State<'a>|
            #[trigger] passes(mid) && compiles_upto(pre, body, upto - 1, mid) && compiles(
                mid,
                body[upto - 1],
                post,
            )
    }
}

/// Whether a node is compiled with the help of the backend or of other
/// nodes.
pub open spec fn asks_backend(node: Node) -> bool {
    node is AssignmentExpr || node is BinaryExpr || node is Function || node is MethodCall
        || node is ParenthesesExpr || node is Primitive
}

/// A node that is compiled without the backend and without other nodes
/// compiles to its outcome.
pub proof fn lemma_compiles_settled<'a>(pre: State<'a>, node: Node, post: State<'a>)
    requires
        !asks_backend(node),
        settled(pre, node) matches Some(Ok(to)) && post =~= to,
    ensures
        compiles(pre, node, post),
{
    reveal(compiles);
}

/// An assignment compiles where its value does and leaves one entry: the
/// name is bound to that entry.
pub proof fn lemma_compiles_assignment<'a>(pre: State<'a>, node: Node, mid: State<'a>, post: State<'a>)
    requires
        node matches Node::AssignmentExpr { identifier, value } && produces(*value) == 1
            && compiles(pre, *value, mid) && post =~= (State {
            module: mid.module,
            scope: mid.scope.insert(identifier@, mid.stack.last()),
            stack: pre.stack,
        }),
    ensures
        compiles(pre, node, post),
{
    reveal(compiles);
    assert(passes(mid));
}

/// A sum or a difference compiles where both operands do and each leaves
/// an integer: an integer with the left operand's type takes their place.
pub proof fn lemma_compiles_binary<'a>(
    pre: State<'a>,
    node: Node,
    a: State<'a>,
    b: State<'a>,
    post: State<'a>,
)
    requires
        node matches Node::BinaryExpr { op, lhs, rhs } && produces(*lhs) == 1 && produces(*rhs)
            == 1 && compiles(pre, *lhs, a) && compiles(a, *rhs, b) && post.module =~= b.module
            && post.scope =~= b.scope && post.stack.len() == pre.stack.len() + 1
            && post.stack.drop_last() =~= pre.stack && combined(
            op,
            a.stack.last(),
            b.stack.last(),
            post.stack.last(),
        ),
    ensures
        compiles(pre, node, post),
{
    reveal(compiles);
    assert(passes(a) && passes(b));
}

/// The function `main` compiles where its statements do; what they leave
/// on the operand stack is dropped.
pub proof fn lemma_compiles_main<'a>(
    pre: State<'a>,
    node: Node,
    end: State<'a>,
    function: FunctionValue<'a>,
    zero: IntValue<'a>,
    post: State<'a>,
)
    requires
        node matches Node::Function { name, args, return_type, body } && name@ == "main"@
            && compiles_upto(pre, body, body.len() as int, end) && post =~= (State {
            module: end.module,
            scope: end.scope,
            stack: pre.stack,
        }),
        main_emitted(function, zero),
    ensures
        compiles(pre, node, post),
{
    reveal(compiles);
    reveal(compiles_upto);
    assert(passes(end) && main_emitted(function, zero));
}

/// A function other than `main` compiles where its parameters and its
/// return type are declared, its statements compile with the parameters
/// bound, and they leave a number on the operand stack.
pub proof fn lemma_compiles_function<'a>(
    pre: State<'a>,
    node: Node,
    inner: Map<Seq<char>, Entry<'a>>,
    end: State<'a>,
    function: FunctionValue<'a>,
    post: State<'a>,
)
    requires
        node matches Node::Function { name, args, return_type, body } && name@ != "main"@
            && parameters_declared(pre.module.types, args@) && declares(
            pre.module.types,
            return_type@,
        ) && returns_number(return_type@) && defined_as(
            pre,
            name@,
            args@,
            return_type@,
            function,
        ) && returned(end.stack.last().value) && parameters_bound(
            pre.module.types,
            pre.scope,
            args@,
            args@.len() as int,
            function,
            inner,
        ) && compiles_upto(
            inside(pre, name@, args@, return_type@, inner),
            body,
            body.len() as int,
            end,
        ) && end.stack.len() > pre.stack.len() && fits(end.stack.last().value, return_type@)
            && post =~= (State {
            module: end.module,
            scope: without(end.scope, parameter_names(args@)),
            stack: pre.stack,
        }),
    ensures
        compiles(pre, node, post),
{
    reveal(compiles);
    reveal(compiles_upto);
    let node_name = node->Function_name@;
    assert(passes(inside(pre, node_name, node->Function_args@, node->return_type@, inner))
        && passes(end) && defined_as(
        pre,
        node_name,
        node->Function_args@,
        node->return_type@,
        function,
    ));
}

/// No argument evaluated leaves the state as it is and gives no value.
pub proof fn lemma_evaluates_none<'a>(pre: State<'a>, args: Vec<Node>)
    ensures
        evaluates(pre, args, 0, pre, Seq::empty()),
{
    reveal(evaluates);
}

/// One more argument that is a bound name gives what the name stands for.
pub proof fn lemma_evaluates_name<'a>(
    pre: State<'a>,
    args: Vec<Node>,
    upto: int,
    mid: State<'a>,
    values: Seq<Entry<'a>>,
)
    requires
        0 < upto <= args.len(),
        evaluates(pre, args, upto - 1, mid, values),
        values.len() == upto - 1,
        argument_name(args[upto - 1]) is Some,
        mid.scope.dom().contains(argument_name(args[upto - 1]).unwrap()),
    ensures
        evaluates(
            pre,
            args,
            upto,
            mid,
            values.push(mid.scope[argument_name(args[upto - 1]).unwrap()]),
        ),
{
    reveal(compiles);
    reveal(evaluates);
    let longer = values.push(mid.scope[argument_name(args[upto - 1]).unwrap()]);
    assert(longer.drop_last() =~= values);
    assert(passes(mid) && passes(mid));
}

/// One more argument that is an expression gives the value that its
/// compilation leaves, and the state that it leads to.
pub proof fn lemma_evaluates_expression<'a>(
    pre: State<'a>,
    args: Vec<Node>,
    upto: int,
    mid: State<'a>,
    after: State<'a>,
    values: Seq<Entry<'a>>,
)
    requires
        0 < upto <= args.len(),
        evaluates(pre, args, upto - 1, mid, values),
        values.len() == upto - 1,
        argument_name(args[upto - 1]) is None,
        produces(args[upto - 1]) == 1,
        compiles(mid, args[upto - 1], after),
    ensures
        evaluates(
            pre,
            args,
            upto,
            with_stack(after, mid.stack),
            values.push(after.stack.last()),
        ),
{
    reveal(compiles);
    reveal(evaluates);
    let longer = values.push(after.stack.last());
    assert(longer.drop_last() =~= values);
    assert(passes(mid) && passes(after));
}

/// A call compiles where its arguments evaluate to values that show no
/// fault: what the call returns is pushed.
pub proof fn lemma_calls<'a>(
    pre: State<'a>,
    name: Seq<char>,
    args: Vec<Node>,
    mid: State<'a>,
    values: Seq<Entry<'a>>,
    post: State<'a>,
)
    requires
        evaluates(pre, args, args.len() as int, mid, values),
        call_fault(mid.module, name, values) is None,
        post.module =~= mid.module,
        post.scope =~= mid.scope,
        post.stack.len() == pre.stack.len() + 1,
        post.stack.drop_last() =~= pre.stack,
        call_pushes(mid.module, name, values, post.stack.last()),
    ensures
        calls(pre, name, args, post),
{
    reveal(compiles);
    reveal(evaluates);
    reveal(calls);
    assert(passes(mid) && handed(values));
}

/// A call node compiles as the call that it holds, and pushes one value.
pub proof fn lemma_compiles_call<'a>(pre: State<'a>, node: Node, post: State<'a>)
    requires
        node is MethodCall,
        calls(pre, node->MethodCall_name@, node->MethodCall_args, post),
    ensures
        compiles(pre, node, post),
        post.stack.len() == pre.stack.len() + 1,
        post.stack.drop_last() =~= pre.stack,
{
    reveal(compiles);
    reveal(calls);
}

/// A node in parentheses compiles as the node itself.
pub proof fn lemma_compiles_parentheses<'a>(pre: State<'a>, node: Node, post: State<'a>)
    requires
        node matches Node::ParenthesesExpr { expr } && compiles(pre, *expr, post),
    ensures
        compiles(pre, node, post),
{
    reveal(compiles);
}

/// A literal compiles to one entry of the literal's type and kind.
pub proof fn lemma_compiles_primitive<'a>(pre: State<'a>, node: Node, post: State<'a>)
    requires
        node matches Node::Primitive(literal) && pushes_one(pre, post) && literal_entry(
            literal,
            post.stack.last(),
        ),
    ensures
        compiles(pre, node, post),
{
    reveal(compiles);
}

/// No statement compiled leaves the state as it is.
pub proof fn lemma_compiles_none<'a>(pre: State<'a>, body: Vec<Node>)
    ensures
        compiles_upto(pre, body, 0, pre),
{
    reveal(compiles_upto);
}

/// One more statement compiled extends what the statements before it did.
pub proof fn lemma_compiles_next<'a>(
    pre: State<'a>,
    body: Vec<Node>,
    upto: int,
    mid: State<'a>,
    post: State<'a>,
)
    requires
        0 < upto <= body.len(),
        compiles_upto(pre, body, upto - 1, mid),
        compiles(mid, body[upto - 1], post),
    ensures
        compiles_upto(pre, body, upto, post),
{
    reveal(compiles);
    reveal(compiles_upto);
    assert(passes(mid));
}

/// A fresh module called `name` after the bootstrap module has been linked
/// into it: it holds the exported types and the functions of that module.
pub open spec fn fresh_module(name: Seq<char>, core: ModuleView) -> ModuleView {
    ModuleView {
        name,
        types: linked_types(Seq::empty(), core.types, core.exports, core.exports.len() as int),
        exports: Seq::empty(),
        functions: Seq::empty() + core.functions,
    }
}

/// What a successful compilation of a module node does: the statements
/// are compiled, in order, into a fresh module that the bootstrap module
/// was linked into; `compiled` is that module afterwards and `scope` the
/// scope afterwards.
pub open spec fn module_compiled<'a>(
    pre_scope: Map<Seq<char>, Entry<'a>>,
    pre_stack: Seq<Entry<'a>>,
    core: ModuleView,
    name: Seq<char>,
    exprs: Vec<Node>,
    compiled: ModuleView,
    scope: Map<Seq<char>, Entry<'a>>,
) -> bool {
    exists|end: State<'a>|
        #[trigger] passes(end) && compiles_upto(
            State { module: fresh_module(name, core), scope: pre_scope, stack: pre_stack },
            exprs,
            exprs.len() as int,
            end,
        ) && compiled =~= end.module && scope =~= end.scope
}

/// A state together with the modules registered so far.
#[verifier::ext_equal]
pub struct Session<'a> {
    pub state: State<'a>,
    pub modules: Map<Seq<char>, ModuleView>,
}

/// The session that a compiler and a target module are in.
pub open spec fn session<'a>(compiler: Compiler<'a>, module: Module<'a>) -> Session<'a> {
    Session { state: state(compiler, module), modules: compiler.modules_view() }
}

/// What the successful inclusion of one top-level node does: a module
/// node is compiled into a module of its own, which is then registered
/// under its name; any other node is compiled into the target module.
pub open spec fn includes<'a>(pre: Session<'a>, node: Node, post: Session<'a>) -> bool {
    match node {
        Node::Module { name, exprs } => {
            &&& pre.modules.dom().contains("Core"@)
            &&& post.state.module =~= pre.state.module
            &&& post.state.stack =~= pre.state.stack
            &&& post.modules.dom().contains(name@)
            &&& post.modules =~= pre.modules.insert(name@, post.modules[name@])
            &&& module_compiled(
                pre.state.scope,
                pre.state.stack,
                pre.modules["Core"@],
                name@,
                exprs,
                post.modules[name@],
                post.state.scope,
            )
        },
        _ => compiles(pre.state, node, post.state) && post.modules =~= pre.modules,
    }
}

/// What the successful inclusion of the first `upto` nodes of `ast` does,
/// one after the other.
#[verifier::opaque]
pub open spec fn includes_upto<'a>(pre: Session<'a>, ast: Vec<Node>, upto: int, post: Session<'a>) -> bool
    decreases upto,
{
    if upto <= 0 || upto > ast.len() {
        post =~= pre
    } else {
        exists|mid: Session<'a>|
            #[trigger] passes(mid.state) && includes_upto(pre, ast, upto - 1, mid) && includes(
                mid,
                ast[upto - 1],
                post,
            )
    }
}

/// What is decided of the first `upto` statements of `body`, compiled one
/// after the other, before the backend is asked: the state that they lead
/// to, or the error of the first statement that is decided to fail, with
/// the state that its failure leaves.
pub open spec fn decided_upto<'a>(pre: State<'a>, body: Vec<Node>, upto: int) -> Decision<'a>
    decreases upto,
{
    if upto <= 0 || upto > body.len() {
        Decision::Done(pre)
    } else {
        match decided_upto(pre, body, upto - 1) {
            Decision::Done(mid) => statement_decision(decided(mid, body[upto - 1])),
            other => other,
        }
    }
}

/// What is decided of the inclusion of the first `upto` top-level nodes of
/// `ast`: as of statements, but that a module node leaves everything open,
/// because its module is linked by the backend.
pub open spec fn decided_including<'a>(pre: State<'a>, ast: Vec<Node>, upto: int) -> Decision<'a>
    decreases upto,
{
    if upto <= 0 || upto > ast.len() {
        Decision::Done(pre)
    } else {
        match decided_including(pre, ast, upto - 1) {
            Decision::Done(mid) => if ast[upto - 1] is Module {
                Decision::Open
            } else {
                statement_decision(decided(mid, ast[upto - 1]))
            },
            other => other,
        }
    }
}

/// Once a statement is decided to fail, or the backend has a say, the
/// statements after it change nothing of what is decided.
pub proof fn lemma_decided_upto_stays<'a>(pre: State<'a>, body: Vec<Node>, at: int, upto: int)
    requires
        0 <= at <= upto <= body.len(),
        !(decided_upto(pre, body, at) is Done),
    ensures
        decided_upto(pre, body, upto) == decided_upto(pre, body, at),
    decreases upto - at,
{
    if at < upto {
        lemma_decided_upto_stays(pre, body, at, upto - 1);
    }
}

/// Once a node is decided to fail, or the backend has a say, the nodes
/// after it change nothing of what is decided.
pub proof fn lemma_decided_including_stays<'a>(pre: State<'a>, ast: Vec<Node>, at: int, upto: int)
    requires
        0 <= at <= upto <= ast.len(),
        !(decided_including(pre, ast, at) is Done),
    ensures
        decided_including(pre, ast, upto) == decided_including(pre, ast, at),
    decreases upto - at,
{
    if at < upto {
        lemma_decided_including_stays(pre, ast, at, upto - 1);
    }
}

/// How a sequence of statements fails: the statements before the failing
/// one have been compiled, and the operand stack is what they left.
pub open spec fn stops<'a>(pre: State<'a>, body: Vec<Node>, post: State<'a>) -> bool {
    exists|k: int, mid: State<'a>|
        #![trigger compiles_upto(pre, body, k, mid)]
        0 <= k < body.len() && compiles_upto(pre, body, k, mid) && post.stack =~= mid.stack
}

/// How an inclusion fails: the nodes before the failing one have been
/// included; the operand stack and the registered modules are what they
/// left.
pub open spec fn stops_including<'a>(pre: Session<'a>, ast: Vec<Node>, post: Session<'a>) -> bool {
    exists|k: int, mid: Session<'a>|
        #![trigger includes_upto(pre, ast, k, mid)]
        0 <= k < ast.len() && includes_upto(pre, ast, k, mid) && post.state.stack
            =~= mid.state.stack && post.modules =~= mid.modules
}

/// The operand stack is a true stack: a compilation leaves what was on it
/// where it was and puts exactly `produces` entries, none or one, on top.
pub proof fn lemma_compiles_keeps_stack<'a>(pre: State<'a>, node: Node, post: State<'a>)
    requires
        compiles(pre, node, post),
    ensures
        post.stack.len() == pre.stack.len() + produces(node),
        produces(node) <= 1,
        post.stack.take(pre.stack.len() as int) == pre.stack,
    decreases node,
{
    reveal(compiles);
    reveal(calls);
    lemma_produces_at_most_one(node);
    match node {
        Node::ParenthesesExpr { expr } => {
            lemma_compiles_keeps_stack(pre, *expr, post);
        },
        Node::AssignmentExpr { .. } | Node::Function { .. } => {
            assert(post.stack.take(pre.stack.len() as int) =~= pre.stack);
        },
        Node::BinaryExpr { .. } | Node::Primitive(_) => {
            assert(post.stack.take(pre.stack.len() as int) =~= post.stack.drop_last());
        },
        Node::MethodCall { name, args } => {
            assert(calls(pre, name@, args, post));
            assert(post.stack.take(pre.stack.len() as int) =~= post.stack.drop_last());
        },
        _ => {
            reveal(settled);
            assert(post.stack.take(pre.stack.len() as int) =~= pre.stack);
        },
    }
}

/// What is decided is consistent with the rules of compilation: a state
/// that a compilation is decided to lead to is one that `compiles` leads to,
/// with `produces` entries more on the operand stack, and a failure that is
/// decided leaves the operand stack as it was.
pub proof fn lemma_decided_is_sound<'a>(pre: State<'a>, node: Node)
    ensures
        match decided(pre, node) {
            Decision::Done(post) => compiles(pre, node, post) && post.stack.len()
                == pre.stack.len() + produces(node) && post.stack.take(pre.stack.len() as int)
                == pre.stack,
            Decision::Refused(_, left) => left.stack == pre.stack,
            Decision::Constant(_) => produces(node) == 1,
            Decision::Open => true,
        },
    decreases node,
{
    match node {
        Node::ParenthesesExpr { expr } => {
            lemma_decided_parentheses(pre, node);
            lemma_decided_is_sound(pre, *expr);
            if decided(pre, node) is Done {
                lemma_compiles_parentheses(pre, node, decided(pre, node)->Done_0);
            }
        },
        Node::AssignmentExpr { identifier, value } => {
            lemma_decided_assignment(pre, node);
            lemma_decided_is_sound(pre, *value);
            lemma_produces_at_most_one(*value);
            if decided(pre, node) is Done {
                let mid = decided(pre, *value)->Done_0;
                lemma_compiles_assignment(pre, node, mid, decided(pre, node)->Done_0);
                assert(pre.stack.take(pre.stack.len() as int) =~= pre.stack);
            }
        },
        Node::BinaryExpr { op, lhs, rhs } => {
            lemma_decided_binary(pre, node);
            lemma_decided_is_sound(pre, *lhs);
            lemma_decided_is_sound(pre, *rhs);
            if decided(pre, *lhs) is Done {
                let a = decided(pre, *lhs)->Done_0;
                lemma_decided_is_sound(a, *rhs);
                if a.stack.len() != pre.stack.len() + 1 {
                    lemma_produces_at_most_one(*lhs);
                    assert(a.stack =~= a.stack.take(pre.stack.len() as int));
                }
            }
        },
        Node::MethodCall { .. } => {
            lemma_decided_call(pre, node);
        },
        Node::Function { .. } => {
            lemma_decided_function(pre, node);
        },
        Node::Primitive(_) => {
            lemma_decided_primitive(pre, node);
        },
        _ => {
            lemma_decided_settled(pre, node);
            reveal(settled);
            if decided(pre, node) is Done {
                let post = decided(pre, node)->Done_0;
                lemma_compiles_settled(pre, node, post);
                assert(post.stack.take(pre.stack.len() as int) =~= pre.stack);
            }
        },
    }
}

/// No node included leaves the session as it is.
pub proof fn lemma_includes_none<'a>(pre: Session<'a>, ast: Vec<Node>)
    ensures
        includes_upto(pre, ast, 0, pre),
{
    reveal(includes_upto);
}

/// One more node included extends what the nodes before it did.
pub proof fn lemma_includes_next<'a>(
    pre: Session<'a>,
    ast: Vec<Node>,
    upto: int,
    mid: Session<'a>,
    post: Session<'a>,
)
    requires
        0 < upto <= ast.len(),
        includes_upto(pre, ast, upto - 1, mid),
        includes(mid, ast[upto - 1], post),
    ensures
        includes_upto(pre, ast, upto, post),
{
    reveal(includes_upto);
    assert(passes(mid.state));
}

} // verus!
