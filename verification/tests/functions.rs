use farnese::ast::{Node, Operator, Primitive};
use farnese::backend::Value;
use farnese::bootstrap::Core;
use farnese::compile::{arithmetic, value_fits};
use farnese::compiler::Compiler;
use farnese::datatype::DataType;
use farnese::emit::{LLVMAlloca, LLVMValue};
use farnese::error::CompileError;
use farnese::module::{Module, Signature};
use farnese::primitive::{int_constant_of, Passing};
use farnese::semantics::Arithmetic;
use inkwell::builder::Builder;
use inkwell::context::Context;

fn number(name: &str) -> DataType {
    DataType::new_primitive_type(name, "Signed", 64)
}

fn signature(params: &[&str], result: &str) -> Signature {
    Signature { params: params.iter().map(|p| number(p)).collect(), result: number(result) }
}

fn literal(value: Primitive) -> Node {
    Node::Primitive(value)
}

fn name_of(text: &str) -> Node {
    Node::Symbol(text.to_string())
}

fn bound(identifier: &str, value: Node) -> Node {
    Node::AssignmentExpr { identifier: identifier.to_string(), value: Box::new(value) }
}

fn parameter(text: &str, arg_type: &str) -> Node {
    Node::FunctionArg { name: text.to_string(), arg_type: arg_type.to_string() }
}

fn defined(text: &str, args: Vec<Node>, return_type: &str, body: Vec<Node>) -> Node {
    Node::Function { name: text.to_string(), args, return_type: return_type.to_string(), body }
}

fn called(function: &str, args: Vec<Node>) -> Node {
    Node::MethodCall { name: function.to_string(), args }
}

fn operation(op: Operator, lhs: Node, rhs: Node) -> Node {
    Node::BinaryExpr { op, lhs: Box::new(lhs), rhs: Box::new(rhs) }
}

fn session<'a>(context: &'a Context) -> (Compiler<'a>, Module<'a>, Builder<'a>) {
    let compiler = Compiler::new(context).unwrap();
    let mut module = Module::new(context, "Main");
    module.link(compiler.get_module("Core").unwrap()).unwrap();
    let builder = context.create_builder();
    Core::main_func_begin(&builder, &module);
    (compiler, module, builder)
}

#[test]
fn function_table_holds_what_was_declared() {
    let context = Context::create();
    let mut module = Module::new(&context, "table");
    assert!(module.get_signature("f").is_none());
    assert!(module.get_signature("printf").is_none());
    let declared = module.add_function("f", signature(&["Int64", "Float64"], "Int32"), None);
    assert!(declared.is_ok());
    let found = module.get_signature("f").unwrap();
    assert_eq!(found.params.len(), 2);
    assert_eq!(found.params[0].name().name(), "Int64");
    assert_eq!(found.params[1].name().name(), "Float64");
    assert_eq!(found.result.name().name(), "Int32");
    let text = module.print_to_string();
    assert!(text.contains("declare i32 @f(i64, double)"), "{}", text);

    assert!(module.add_function("f", signature(&[], "Float64"), None).is_ok());
    let first = module.get_signature("f").unwrap();
    assert_eq!(first.result.name().name(), "Int32");
    assert_eq!(first.params.len(), 2);

    assert_eq!(
        module.add_function("g", signature(&["Any"], "Int64"), None).err(),
        Some(CompileError::UnsupportedPrimitive("Any".to_string()))
    );
    assert_eq!(
        module.add_function("g", signature(&["Int64"], "Number"), None).err(),
        Some(CompileError::UnsupportedPrimitive("Number".to_string()))
    );
    assert_eq!(
        module.add_function("g", signature(&["String"], "String"), None).err(),
        Some(CompileError::TypeMismatch)
    );
    assert!(module.get_signature("g").is_none());
    assert!(module.get_function("g").is_err());
    assert!(module.add_function("g", signature(&["String"], "Float32"), None).is_ok());
    assert!(module.print_to_string().contains("declare float @g(i8*)"));
}

#[test]
fn function_is_found_as_its_signature_only() {
    let context = Context::create();
    let mut module = Module::new(&context, "typed");
    module.add_function("f", signature(&["Int64"], "Int64"), None).unwrap();
    assert!(module.get_function_as("f", &signature(&["Int64"], "Int64")).is_ok());
    assert_eq!(
        module.get_function_as("f", &signature(&["Int32"], "Int64")).err(),
        Some(CompileError::TypeMismatch)
    );
    assert_eq!(
        module.get_function_as("f", &signature(&["Int64", "Int64"], "Int64")).err(),
        Some(CompileError::TypeMismatch)
    );
    assert_eq!(
        module.get_function_as("h", &signature(&["Int64"], "Int64")).err(),
        Some(CompileError::UndefinedFunction("h".to_string()))
    );
    assert_eq!(
        module.get_function_as("f", &signature(&["Any"], "Int64")).err(),
        Some(CompileError::UnsupportedPrimitive("Any".to_string()))
    );
    assert_eq!(
        module.get_function_as("printf", &signature(&["String"], "Int32")).err(),
        Some(CompileError::TypeMismatch)
    );
}

#[test]
fn link_and_copy_carry_the_function_table() {
    let context = Context::create();
    let mut compiler = Compiler::new(&context).unwrap();
    let mut library = Module::new(&context, "Library");
    library.link(compiler.get_module("Core").unwrap()).unwrap();
    let builder = context.create_builder();
    let twice = defined(
        "twice",
        vec![parameter("a", "Int64")],
        "Int64",
        vec![operation(Operator::Plus, name_of("a"), name_of("a"))],
    );
    assert_eq!(compiler.compile_expr(&builder, &mut library, &twice), Ok(()));
    assert!(library.get_signature("twice_Int64").is_some());
    assert!(library.get_signature("twice").is_none());

    let copy = library.try_clone().unwrap();
    assert_eq!(copy.get_signature("twice_Int64").unwrap().result.name().name(), "Int64");

    let mut target = Module::new(&context, "Target");
    target.add_function("twice_Int64", signature(&["Float64"], "Float64"), None).unwrap();
    target.add_function("own", signature(&[], "Int32"), None).unwrap();
    let mut user = Module::new(&context, "User");
    assert!(user.get_signature("twice_Int64").is_none());
    user.link(&library).unwrap();
    assert_eq!(user.get_signature("twice_Int64").unwrap().params[0].name().name(), "Int64");
    let before = target.get_signature("twice_Int64").unwrap().clone();
    assert_eq!(before.result.name().name(), "Float64");
}

#[test]
fn call_is_checked_against_the_signature() {
    let context = Context::create();
    let (mut compiler, mut module, builder) = session(&context);
    let add = defined(
        "add",
        vec![parameter("a", "Int64"), parameter("b", "Int64")],
        "Int64",
        vec![operation(Operator::Plus, name_of("a"), name_of("b"))],
    );
    assert_eq!(compiler.compile_expr(&builder, &mut module, &add), Ok(()));
    let half = defined("half", vec![parameter("a", "Float64")], "Float64", vec![name_of("a")]);
    assert_eq!(compiler.compile_expr(&builder, &mut module, &half), Ok(()));
    let small = defined(
        "small",
        vec![parameter("a", "Int32")],
        "Int32",
        vec![operation(Operator::Minus, name_of("a"), name_of("a"))],
    );
    assert_eq!(compiler.compile_expr(&builder, &mut module, &small), Ok(()));
    for (name, value) in [
        ("x", Primitive::Int64(1)),
        ("y", Primitive::Float64((2.5 as f64).to_bits())),
        ("z", Primitive::Int32(3)),
    ] {
        assert_eq!(compiler.compile_expr(&builder, &mut module, &bound(name, literal(value))), Ok(()));
    }
    let depth = compiler.depth();
    let mut refused = |name: &str, args: Vec<Node>, error: CompileError| {
        assert_eq!(
            compiler.compile_expr(&builder, &mut module, &called(name, args)),
            Err(error),
            "{}",
            name
        );
        assert_eq!(compiler.depth(), depth);
    };
    refused("add", vec![name_of("x"), name_of("x")], CompileError::UndefinedFunction("add".to_string()));
    refused("malloc", vec![name_of("x")], CompileError::UndefinedFunction("malloc".to_string()));
    refused("add_Int64_Int64", vec![name_of("x")], CompileError::TypeMismatch);
    refused(
        "add_Int64_Int64",
        vec![name_of("x"), name_of("x"), name_of("x")],
        CompileError::TypeMismatch,
    );
    refused("add_Int64_Int64", vec![name_of("x"), name_of("y")], CompileError::TypeMismatch);
    refused("add_Int64_Int64", vec![name_of("z"), name_of("x")], CompileError::TypeMismatch);
    refused("half_Float64", vec![name_of("x")], CompileError::TypeMismatch);
    refused(
        "add_Int64_Int64",
        vec![name_of("x"), name_of("w")],
        CompileError::UndefinedSymbol("w".to_string()),
    );

    for (name, args, tag) in [
        ("add_Int64_Int64", vec![name_of("x"), name_of("x")], "Int64"),
        ("half_Float64", vec![name_of("y")], "Float64"),
        ("small_Int32", vec![name_of("z")], "Int32"),
    ] {
        assert_eq!(compiler.compile_expr(&builder, &mut module, &called(name, args)), Ok(()));
        let (value, datatype) = compiler.pop().unwrap();
        assert_eq!(datatype.name().name(), tag);
        assert!(value_fits(&value, &datatype));
    }
    Core::main_func_end(&builder, &module).unwrap();
    assert!(module.module().verify().is_ok(), "{}", module.print_to_string());
    let text = module.print_to_string();
    assert!(text.contains("call i64 @add_Int64_Int64(i64 1, i64 1)"), "{}", text);
    assert!(text.contains("call double @half_Float64(double 2.500000e+00)"));
    assert!(text.contains("call i32 @small_Int32(i32 3)"));
    assert!(text.contains("define i32 @small_Int32(i32 %0)"));
}

#[test]
fn failing_function_leaves_the_scope_as_it_was() {
    let context = Context::create();
    let (mut compiler, mut module, builder) = session(&context);
    assert_eq!(
        compiler.compile_expr(&builder, &mut module, &bound("a", literal(Primitive::Int32(7)))),
        Ok(())
    );
    let wrong_result = defined(
        "wrong",
        vec![parameter("a", "Float64"), parameter("b", "Int64")],
        "Int64",
        vec![bound("c", name_of("b")), name_of("a")],
    );
    assert_eq!(
        compiler.compile_expr(&builder, &mut module, &wrong_result),
        Err(CompileError::TypeMismatch)
    );
    assert_eq!(compiler.lookup("a").unwrap().1.name().name(), "Int32");
    assert!(compiler.lookup("b").is_none());
    assert!(compiler.lookup("c").is_none());
    assert_eq!(compiler.depth(), 0);

    let empty = defined("empty", vec![parameter("b", "Int64")], "Int64", vec![]);
    assert_eq!(compiler.compile_expr(&builder, &mut module, &empty), Err(CompileError::TypeMismatch));
    assert!(compiler.lookup("b").is_none());
    assert_eq!(compiler.lookup("a").unwrap().1.name().name(), "Int32");

    let narrow = defined("narrow", vec![parameter("b", "Int64")], "Int32", vec![name_of("b")]);
    assert_eq!(
        compiler.compile_expr(&builder, &mut module, &narrow),
        Err(CompileError::TypeMismatch)
    );
    assert!(compiler.lookup("b").is_none());
}

#[test]
fn parameters_carry_their_declared_types() {
    let context = Context::create();
    let (mut compiler, mut module, builder) = session(&context);
    let keep = defined(
        "keep",
        vec![parameter("a", "Float32"), parameter("n", "Int32")],
        "Int32",
        vec![bound("seen", name_of("a")), operation(Operator::Plus, name_of("n"), name_of("n"))],
    );
    assert_eq!(compiler.compile_expr(&builder, &mut module, &keep), Ok(()));
    let (value, datatype) = compiler.lookup("seen").unwrap();
    assert_eq!(datatype.name().name(), "Float32");
    assert!(matches!(value, Value::Float(_)));
    assert!(compiler.lookup("a").is_none());
    assert!(compiler.lookup("n").is_none());
    let text = module.print_to_string();
    assert!(text.contains("define i32 @keep_Float32_Int32(float %0, i32 %1)"), "{}", text);
    assert!(text.contains("add i32 %1, %1"));
    let found = module.get_signature("keep_Float32_Int32").unwrap();
    assert_eq!(found.params[0].name().name(), "Float32");
    assert_eq!(found.params[0].supertype().name(), "AbstractFloat");
    assert_eq!(found.result.name().name(), "Int32");
}

#[test]
fn function_can_call_itself() {
    let context = Context::create();
    let (mut compiler, mut module, builder) = session(&context);
    let again = defined(
        "again",
        vec![parameter("n", "Int64")],
        "Int64",
        vec![called("again_Int64", vec![name_of("n")])],
    );
    assert_eq!(compiler.compile_expr(&builder, &mut module, &again), Ok(()));
    assert!(module.print_to_string().contains("call i64 @again_Int64(i64 %0)"));
}

#[test]
fn operators_on_literals_are_decided_by_kind_operator_and_width() {
    let context = Context::create();
    let (mut compiler, mut module, builder) = session(&context);
    let one = || literal(Primitive::Int64(1));
    let short = || literal(Primitive::Int32(1));
    let real = || literal(Primitive::Float64((1.0 as f64).to_bits()));
    for (node, error) in [
        (
            operation(Operator::Multiply, one(), one()),
            CompileError::UnsupportedOperator(Operator::Multiply),
        ),
        (
            operation(Operator::Divide, one(), short()),
            CompileError::UnsupportedOperator(Operator::Divide),
        ),
        (operation(Operator::Plus, one(), short()), CompileError::TypeMismatch),
        (operation(Operator::Minus, literal(Primitive::Char('c')), short()), CompileError::TypeMismatch),
        (operation(Operator::Plus, one(), real()), CompileError::TypeMismatch),
        (operation(Operator::Multiply, real(), one()), CompileError::TypeMismatch),
        (
            operation(Operator::Plus, one(), Node::ParenthesesExpr {
                expr: Box::new(operation(Operator::Divide, one(), one())),
            }),
            CompileError::UnsupportedOperator(Operator::Divide),
        ),
    ] {
        assert_eq!(compiler.compile_expr(&builder, &mut module, &node), Err(error), "{:?}", node);
        assert_eq!(compiler.depth(), 0);
    }
    let difference = operation(
        Operator::Minus,
        literal(Primitive::Int16(3)),
        Node::ParenthesesExpr { expr: Box::new(literal(Primitive::Int16(5))) },
    );
    assert_eq!(compiler.compile_expr(&builder, &mut module, &difference), Ok(()));
    let (value, datatype) = compiler.pop().unwrap();
    assert_eq!(datatype.name().name(), "Int16");
    match value {
        Value::Int(x) => {
            assert_eq!(x.get_type().get_bit_width(), 16);
            assert_eq!(x.get_sign_extended_constant(), Some(-2));
            assert_eq!(x.get_zero_extended_constant(), Some(0xFFFE));
        },
        other => panic!("{:?}", other),
    }
}

#[test]
fn operator_selects_its_instruction() {
    assert_eq!(arithmetic(Operator::Plus), Some(Arithmetic::Add));
    assert_eq!(arithmetic(Operator::Minus), Some(Arithmetic::Subtract));
    assert_eq!(arithmetic(Operator::Multiply), None);
    assert_eq!(arithmetic(Operator::Divide), None);
}

#[test]
fn literal_has_the_width_and_bits_of_its_kind() {
    assert_eq!(Primitive::Char('c').constant_parts(), (8, 99));
    assert_eq!(Primitive::Int16(-1).constant_parts(), (16, 0xFFFF));
    assert_eq!(Primitive::Int16(258).constant_parts(), (16, 258));
    assert_eq!(Primitive::Int32(-2).constant_parts(), (32, 0xFFFF_FFFE));
    assert_eq!(Primitive::Int64(-1).constant_parts(), (64, u64::MAX));
    assert_eq!(Primitive::Int64(i64::MIN).constant_parts(), (64, 1u64 << 63));
    assert_eq!(Primitive::Float32((1.0 as f32).to_bits()).constant_parts(), (32, 0x3F80_0000));
    assert_eq!(
        Primitive::Float64((1.0 as f64).to_bits()).constant_parts(),
        (64, 0x3FF0_0000_0000_0000)
    );

    let context = Context::create();
    let (_, module, builder) = session(&context);
    for (value, width, bits) in [
        (Primitive::Char('c'), 8, 99u64),
        (Primitive::Int16(-1), 16, 0xFFFF),
        (Primitive::Int32(-2), 32, 0xFFFF_FFFE),
        (Primitive::Int64(-3), 64, u64::MAX - 2),
    ] {
        match value.emit_ir_value(&builder, &module).unwrap() {
            Value::Int(x) => {
                assert_eq!(x.get_type().get_bit_width(), width);
                assert_eq!(x.get_zero_extended_constant(), Some(bits));
            },
            other => panic!("{:?}", other),
        }
    }
    let cut = int_constant_of(&module, 8, 0x1FF).unwrap();
    assert_eq!(cut.get_type().get_bit_width(), 8);
    assert_eq!(cut.get_zero_extended_constant(), Some(0xFF));
    assert!(int_constant_of(&module, 7, 1).is_none());
    assert!(int_constant_of(&module, 128, 1).is_none());
    assert!(int_constant_of(&module, 64, u64::MAX).is_some());
}

#[test]
fn literal_is_handed_to_the_output_routine_by_its_kind() {
    assert_eq!(Primitive::String("s".to_string()).passing(), Passing::Address);
    assert_eq!(Primitive::Int16(1).passing(), Passing::WidenedInteger);
    assert_eq!(Primitive::Float32(0).passing(), Passing::WidenedFloat);
    assert_eq!(Primitive::Char('c').passing(), Passing::Constant);
    assert_eq!(Primitive::Int32(1).passing(), Passing::Constant);
    assert_eq!(Primitive::Int64(1).passing(), Passing::Constant);
    assert_eq!(Primitive::Float64(0).passing(), Passing::Constant);
}

#[test]
fn value_fits_the_representation_of_its_type() {
    let context = Context::create();
    let (_, module, builder) = session(&context);
    let long = Primitive::Int64(1).emit_ir_value(&builder, &module).unwrap();
    let short = Primitive::Int32(1).emit_ir_value(&builder, &module).unwrap();
    let real = Primitive::Float64(0).emit_ir_value(&builder, &module).unwrap();
    assert!(value_fits(&long, &number("Int64")));
    assert!(!value_fits(&long, &number("Int32")));
    assert!(value_fits(&short, &number("Int32")));
    assert!(!value_fits(&short, &number("Int64")));
    assert!(!value_fits(&long, &number("Float64")));
    assert!(value_fits(&real, &number("Float64")));
    assert!(!value_fits(&real, &number("String")));
    assert!(!value_fits(&long, &number("Any")));
    let single = Primitive::Float32(0).emit_ir_value(&builder, &module).unwrap();
    assert!(value_fits(&single, &number("Float32")));
    assert!(!value_fits(&single, &number("Float64")));
    assert!(!value_fits(&real, &number("Float32")));
    assert!(!value_fits(&single, &number("Int32")));
    let text = Primitive::String("s".to_string()).emit_ir_alloca(&builder, &module).unwrap();
    assert!(value_fits(&Value::Pointer(text), &number("String")));
    assert!(!value_fits(&Value::Pointer(text), &number("Int64")));
    assert!(!value_fits(&long, &number("String")));
    assert!(module.get_output_routine().is_ok());
}

#[test]
fn floats_are_told_apart_by_their_width() {
    let context = Context::create();
    let (mut compiler, mut module, builder) = session(&context);
    let widen = defined("widen", vec![parameter("a", "Float32")], "Float64", vec![name_of("a")]);
    assert_eq!(
        compiler.compile_expr(&builder, &mut module, &widen),
        Err(CompileError::TypeMismatch)
    );
    let same = defined("same", vec![parameter("a", "Float32")], "Float32", vec![name_of("a")]);
    assert_eq!(compiler.compile_expr(&builder, &mut module, &same), Ok(()));
    let single = literal(Primitive::Float32((1.5 as f32).to_bits()));
    let double = literal(Primitive::Float64((1.5 as f64).to_bits()));
    assert_eq!(
        compiler.compile_expr(&builder, &mut module, &called("same_Float32", vec![double])),
        Err(CompileError::TypeMismatch)
    );
    assert_eq!(
        compiler.compile_expr(&builder, &mut module, &called("same_Float32", vec![single])),
        Ok(())
    );
    let (value, datatype) = compiler.pop().unwrap();
    assert_eq!(datatype.name().name(), "Float32");
    assert!(value_fits(&value, &datatype));
    assert!(module.print_to_string().contains("call float @same_Float32(float 1.500000e+00)"));
}

#[test]
fn text_is_handed_to_a_function_by_its_address() {
    let context = Context::create();
    let (mut compiler, mut module, builder) = session(&context);
    let count = defined(
        "count",
        vec![parameter("s", "String")],
        "Int64",
        vec![literal(Primitive::Int64(3))],
    );
    assert_eq!(compiler.compile_expr(&builder, &mut module, &count), Ok(()));
    let text = literal(Primitive::String("abc".to_string()));
    assert_eq!(
        compiler.compile_expr(&builder, &mut module, &called("count_String", vec![text])),
        Ok(())
    );
    assert_eq!(compiler.pop().unwrap().1.name().name(), "Int64");
    assert_eq!(
        compiler.compile_expr(
            &builder,
            &mut module,
            &called("count_String", vec![literal(Primitive::Int64(1))])
        ),
        Err(CompileError::TypeMismatch)
    );
    Core::main_func_end(&builder, &module).unwrap();
    assert!(module.module().verify().is_ok(), "{}", module.print_to_string());
    let printed = module.print_to_string();
    assert!(printed.contains("define i64 @count_String(i8* %0)"), "{}", printed);
    assert!(printed.contains("call i64 @count_String(i8* %"), "{}", printed);
}

#[test]
fn module_is_registered_under_its_own_name() {
    let context = Context::create();
    let mut compiler = Compiler::new(&context).unwrap();
    assert_eq!(compiler.compile_module("Shapes", &vec![], &context), Ok(()));
    assert_eq!(compiler.get_module("Shapes").unwrap().name().name(), "Shapes");
    assert_eq!(compiler.get_module("Core").unwrap().name().name(), "Core");
}

#[test]
fn arguments_can_be_expressions() {
    let context = Context::create();
    let (mut compiler, mut module, builder) = session(&context);
    let twice = defined(
        "twice",
        vec![parameter("a", "Int64")],
        "Int64",
        vec![operation(Operator::Plus, name_of("a"), name_of("a"))],
    );
    assert_eq!(compiler.compile_expr(&builder, &mut module, &twice), Ok(()));
    assert_eq!(
        compiler.compile_expr(&builder, &mut module, &bound("x", literal(Primitive::Int64(5)))),
        Ok(())
    );
    let seven = || literal(Primitive::Int64(7));
    for (node, text) in [
        (called("twice_Int64", vec![seven()]), "call i64 @twice_Int64(i64 7)"),
        (
            called("twice_Int64", vec![operation(Operator::Minus, name_of("x"), seven())]),
            "call i64 @twice_Int64(i64 -2)",
        ),
        (
            called(
                "twice_Int64",
                vec![Node::ParenthesesExpr {
                    expr: Box::new(called("twice_Int64", vec![parameter("x", "Int64")])),
                }],
            ),
            "call i64 @twice_Int64(i64 %",
        ),
        (called("printf", vec![literal(Primitive::Int64(9))]), "i64 9)"),
    ] {
        assert_eq!(compiler.compile_expr(&builder, &mut module, &node), Ok(()), "{:?}", node);
        let (value, datatype) = compiler.pop().unwrap();
        assert_eq!(datatype.name().name(), "Int64");
        assert!(matches!(value, Value::Int(_)));
        assert_eq!(compiler.depth(), 0);
        assert!(module.print_to_string().contains(text), "{}", module.print_to_string());
    }
    for (node, error) in [
        (
            called("twice_Int64", vec![bound("y", seven())]),
            CompileError::TypeMismatch,
        ),
        (
            called("twice_Int64", vec![operation(Operator::Plus, name_of("nobody"), seven())]),
            CompileError::UndefinedSymbol("nobody".to_string()),
        ),
        (
            called("twice_Int64", vec![seven(), name_of("nobody")]),
            CompileError::UndefinedSymbol("nobody".to_string()),
        ),
        (
            called("twice_Int64", vec![literal(Primitive::Int32(7))]),
            CompileError::TypeMismatch,
        ),
        (called("twice_Int64", vec![seven(), seven()]), CompileError::TypeMismatch),
        (
            called("nothing", vec![seven()]),
            CompileError::UndefinedFunction("nothing".to_string()),
        ),
    ] {
        assert_eq!(compiler.compile_expr(&builder, &mut module, &node), Err(error), "{:?}", node);
        assert_eq!(compiler.depth(), 0);
    }
    Core::main_func_end(&builder, &module).unwrap();
    assert!(module.module().verify().is_ok(), "{}", module.print_to_string());
}

#[test]
fn count_of_the_output_routine_is_a_64_bit_integer() {
    let context = Context::create();
    let (mut compiler, mut module, builder) = session(&context);
    assert_eq!(
        compiler.compile_expr(&builder, &mut module, &bound("x", literal(Primitive::Int64(4)))),
        Ok(())
    );
    let sum = operation(
        Operator::Plus,
        called("printf", vec![name_of("x")]),
        literal(Primitive::Int64(1)),
    );
    assert_eq!(compiler.compile_expr(&builder, &mut module, &sum), Ok(()));
    let (value, datatype) = compiler.pop().unwrap();
    assert_eq!(datatype.name().name(), "Int64");
    assert!(value_fits(&value, &datatype));
    Core::main_func_end(&builder, &module).unwrap();
    assert!(module.module().verify().is_ok(), "{}", module.print_to_string());
    let text = module.print_to_string();
    assert!(text.contains("call i8 (i8*, ...) @printf("), "{}", text);
    assert!(text.contains("zext i8"), "{}", text);
    assert!(text.contains("add i64"), "{}", text);
}

#[test]
fn copy_of_a_module_holds_the_output_routine() {
    let context = Context::create();
    let module = Module::new(&context, "first");
    let routine = module.get_output_routine().unwrap();
    assert!(routine.get_type().is_var_arg());
    assert_eq!(routine.count_params(), 1);
    let copy = module.try_clone().unwrap();
    let copied = copy.get_output_routine().unwrap();
    assert_ne!(routine, copied);
    assert_eq!(routine.get_type(), copied.get_type());
}
