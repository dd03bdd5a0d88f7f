use farnese::ast::{Node, Operator, Primitive};
use farnese::backend::Value;
use farnese::bootstrap::Core;
use farnese::compile::{apply_binary, export_all, mangle, resolve_struct};
use farnese::compiler::Compiler;
use farnese::datatype::DataType;
use farnese::emit::LLVMValue;
use farnese::error::CompileError;
use farnese::module::Module;
use inkwell::builder::Builder;
use inkwell::context::Context;

fn whole(value: i64) -> Node {
    Node::Primitive(Primitive::Int64(value))
}

fn fraction(value: f64) -> Node {
    Node::Primitive(Primitive::Float64(value.to_bits()))
}

fn named(text: &str) -> Node {
    Node::Symbol(text.to_string())
}

fn binary(op: Operator, lhs: Node, rhs: Node) -> Node {
    Node::BinaryExpr { op, lhs: Box::new(lhs), rhs: Box::new(rhs) }
}

fn assign(identifier: &str, value: Node) -> Node {
    Node::AssignmentExpr { identifier: identifier.to_string(), value: Box::new(value) }
}

fn call(function: &str, args: Vec<Node>) -> Node {
    Node::MethodCall { name: function.to_string(), args }
}

fn arg(text: &str, arg_type: &str) -> Node {
    Node::FunctionArg { name: text.to_string(), arg_type: arg_type.to_string() }
}

fn function(text: &str, args: Vec<Node>, return_type: &str, body: Vec<Node>) -> Node {
    Node::Function {
        name: text.to_string(),
        args,
        return_type: return_type.to_string(),
        body,
    }
}

fn main_module<'a>(compiler: &Compiler<'a>, context: &'a Context) -> Module<'a> {
    let mut module = Module::new(context, "Main");
    module.link(compiler.get_module("Core").unwrap()).unwrap();
    module
}

fn in_main<'a>(compiler: &Compiler<'a>, context: &'a Context) -> (Module<'a>, Builder<'a>) {
    let module = main_module(compiler, context);
    let builder = context.create_builder();
    Core::main_func_begin(&builder, &module);
    (module, builder)
}

fn type_names(module: &Module) -> Vec<String> {
    module.get_types().iter().map(|t| t.name().name().to_string()).collect()
}

#[test]
fn assigned_sum_is_a_constant_of_64_bits() {
    let context = Context::create();
    let mut compiler = Compiler::new(&context).unwrap();
    let (mut module, builder) = in_main(&compiler, &context);
    let node = assign("id", binary(Operator::Plus, whole(2), whole(3)));
    assert_eq!(compiler.compile_expr(&builder, &mut module, &node), Ok(()));
    assert_eq!(compiler.depth(), 0);
    assert_eq!(compiler.compile_expr(&builder, &mut module, &named("id")), Ok(()));
    assert_eq!(compiler.depth(), 1);
    let (value, datatype) = &compiler.stack()[0];
    assert_eq!(datatype.name().name(), "Int64");
    assert_eq!(datatype.supertype().name(), "Signed");
    match value {
        Value::Int(x) => {
            assert_eq!(x.get_type().get_bit_width(), 64);
            assert_eq!(x.get_sign_extended_constant(), Some(5));
        },
        other => panic!("no integer: {:?}", other),
    }
    let (bound, _) = compiler.lookup("id").unwrap();
    assert!(matches!(bound, Value::Int(x) if x.get_sign_extended_constant() == Some(5)));
}

#[test]
fn difference_takes_the_type_of_the_left_operand() {
    let context = Context::create();
    let mut compiler = Compiler::new(&context).unwrap();
    let (mut module, builder) = in_main(&compiler, &context);
    let node = binary(
        Operator::Minus,
        Node::Primitive(Primitive::Int32(10)),
        Node::ParenthesesExpr { expr: Box::new(Node::Primitive(Primitive::Int32(4))) },
    );
    assert_eq!(compiler.compile_expr(&builder, &mut module, &node), Ok(()));
    let (value, datatype) = compiler.pop().unwrap();
    assert_eq!(datatype.name().name(), "Int32");
    assert!(matches!(value, Value::Int(x) if x.get_sign_extended_constant() == Some(6)));
    assert_eq!(compiler.pop().map(|e| e.1.name().name().to_string()), None);
}

#[test]
fn functions_are_declared_under_mangled_names() {
    let context = Context::create();
    let mut compiler = Compiler::new(&context).unwrap();
    let mut module = main_module(&compiler, &context);
    let builder = context.create_builder();
    let add = function(
        "add",
        vec![arg("a", "Int64"), arg("b", "Int64")],
        "Int64",
        vec![binary(Operator::Plus, named("a"), named("b"))],
    );
    assert_eq!(compiler.compile_expr(&builder, &mut module, &add), Ok(()));
    let add_floats = function(
        "add",
        vec![arg("a", "Float64"), arg("b", "Float64")],
        "Float64",
        vec![named("a")],
    );
    assert_eq!(compiler.compile_expr(&builder, &mut module, &add_floats), Ok(()));
    let ints = module.get_function("add_Int64_Int64").unwrap();
    let floats = module.get_function("add_Float64_Float64").unwrap();
    assert_ne!(ints, floats);
    assert_eq!(ints.count_params(), 2);
    assert!(module.get_function("add").is_err());
    assert_eq!(compiler.depth(), 0);
    assert!(compiler.lookup("a").is_none());
    assert!(compiler.lookup("b").is_none());
    assert!(module.module().verify().is_ok(), "{}", module.print_to_string());
    let text = module.print_to_string();
    assert!(text.contains("define i64 @add_Int64_Int64(i64 %0, i64 %1)"));
    assert!(text.contains("add i64 %0, %1"));
    assert!(text.contains("define double @add_Float64_Float64(double %0, double %1)"));
}

#[test]
fn mangled_name_joins_the_type_names() {
    let wide = DataType::new_primitive_type("Int64", "Signed", 64);
    let real = DataType::new_primitive_type("Float64", "AbstractFloat", 64);
    assert_eq!(mangle("add", &vec![wide.clone(), wide.clone()]), "add_Int64_Int64");
    assert_eq!(mangle("add", &vec![real.clone(), real]), "add_Float64_Float64");
    assert_eq!(mangle("neg", &vec![wide]), "neg_Int64");
    assert_eq!(mangle("now", &vec![]), "now_");
}

#[test]
fn compiled_function_can_be_called() {
    let context = Context::create();
    let mut compiler = Compiler::new(&context).unwrap();
    let mut module = main_module(&compiler, &context);
    let builder = context.create_builder();
    let twice = function(
        "twice",
        vec![arg("a", "Int64")],
        "Int64",
        vec![binary(Operator::Plus, named("a"), named("a"))],
    );
    assert_eq!(compiler.compile_expr(&builder, &mut module, &twice), Ok(()));
    let main = function(
        "main",
        vec![],
        "Int64",
        vec![
            assign("x", whole(21)),
            assign("y", call("twice_Int64", vec![arg("x", "Int64")])),
            call("printf", vec![named("y")]),
        ],
    );
    assert_eq!(compiler.compile_expr(&builder, &mut module, &main), Ok(()));
    assert_eq!(compiler.depth(), 0);
    let (_, tagged) = compiler.lookup("y").unwrap();
    assert_eq!(tagged.name().name(), "Int64");
    assert!(module.module().verify().is_ok(), "{}", module.print_to_string());
    let text = module.print_to_string();
    assert!(text.contains("define i32 @main()"));
    assert!(text.contains("call i64 @twice_Int64(i64 21)"));
    assert!(text.contains("c\"%lld\\00\""));
    assert!(text.contains("ret i32 0"));
}

#[test]
fn float_is_printed_with_the_decimal_format() {
    let context = Context::create();
    let mut compiler = Compiler::new(&context).unwrap();
    let (mut module, builder) = in_main(&compiler, &context);
    assert_eq!(compiler.compile_expr(&builder, &mut module, &assign("x", fraction(1.5))), Ok(()));
    let (value, datatype) = compiler.lookup("x").unwrap();
    assert_eq!(datatype.name().name(), "Float64");
    assert!(matches!(value, Value::Float(x) if x.get_constant() == Some((1.5, false))));
    let print = call("printf", vec![named("x")]);
    assert_eq!(compiler.compile_expr(&builder, &mut module, &print), Ok(()));
    assert_eq!(compiler.depth(), 1);
    assert_eq!(compiler.stack()[0].1.name().name(), "Int64");
    let text = module.print_to_string();
    assert!(text.contains("c\"%.8f\\00\""));
    assert!(text.contains("double 1.500000e+00)"));
    assert!(!text.contains("%lld"));
    assert!(!text.contains("c\"%s\\00\""));
}

#[test]
fn text_is_printed_with_the_text_format() {
    let context = Context::create();
    let mut compiler = Compiler::new(&context).unwrap();
    let (mut module, builder) = in_main(&compiler, &context);
    let text_node = Node::Primitive(Primitive::String("hello".to_string()));
    assert_eq!(compiler.compile_expr(&builder, &mut module, &assign("s", text_node)), Ok(()));
    let (value, datatype) = compiler.lookup("s").unwrap();
    assert_eq!(datatype.name().name(), "String");
    assert!(matches!(value, Value::Pointer(_)));
    let print = call("printf", vec![named("s")]);
    assert_eq!(compiler.compile_expr(&builder, &mut module, &print), Ok(()));
    let text = module.print_to_string();
    assert!(text.contains("c\"hello\\00\""));
    assert!(text.contains("c\"%s\\00\""));
}

#[test]
fn bootstrap_is_the_same_for_every_compiler() {
    let context = Context::create();
    let first = Compiler::new(&context).unwrap();
    let second = Compiler::new(&context).unwrap();
    let other_context = Context::create();
    let third = Compiler::new(&other_context).unwrap();
    let table = |compiler: &Compiler| -> Vec<(String, String, bool, bool)> {
        compiler
            .get_module("Core")
            .unwrap()
            .get_types()
            .iter()
            .map(|t| {
                (
                    t.name().name().to_string(),
                    t.supertype().name().to_string(),
                    t.is_abstract(),
                    t.is_primitive(),
                )
            })
            .collect()
    };
    assert_eq!(table(&first), table(&second));
    assert_eq!(table(&first), table(&third));
    assert_eq!(table(&first).len(), 15);
    assert_eq!(
        table(&first)[12],
        ("Int32".to_string(), "Signed".to_string(), false, true)
    );
    let exports: Vec<String> = first
        .get_module("Core")
        .unwrap()
        .get_exports()
        .iter()
        .map(|s| s.name().to_string())
        .collect();
    assert_eq!(exports, vec!["Any", "Float32", "Float64", "Int32", "Int64", "String"]);
    assert_eq!(first.modules().len(), 1);
    assert_eq!(first.modules()[0].0.name(), "Core");
    assert_eq!(first.depth(), 0);
}

#[test]
fn bootstrap_hierarchy_ends_in_a_root() {
    let context = Context::create();
    let compiler = Compiler::new(&context).unwrap();
    let core = compiler.get_module("Core").unwrap();
    for datatype in core.get_types() {
        let mut current = datatype;
        let mut links = 0;
        while current.supertype().name() != current.name().name() {
            current = core.get_type(current.supertype().name()).unwrap();
            links += 1;
            assert!(links <= 5);
        }
        assert!(current.name().name() == "Any" || current.name().name() == "DataType");
    }
    let chain = |start: &str| -> Vec<String> {
        let mut out = vec![start.to_string()];
        let mut current = core.get_type(start).unwrap();
        while current.supertype().name() != current.name().name() {
            current = core.get_type(current.supertype().name()).unwrap();
            out.push(current.name().name().to_string());
        }
        out
    };
    assert_eq!(chain("Int64"), vec!["Int64", "Signed", "Integer", "Real", "Number", "Any"]);
    assert_eq!(chain("Float32"), vec!["Float32", "AbstractFloat", "Real", "Number", "Any"]);
    assert_eq!(chain("String"), vec!["String", "AbstractString", "Any"]);
    assert_eq!(chain("DataType"), vec!["DataType"]);
    for datatype in core.get_types() {
        let names = chain(datatype.name().name());
        for (at, name) in names.iter().enumerate() {
            assert!(!names[at + 1..].contains(name), "{:?}", names);
        }
    }
}

#[test]
fn declarations_extend_the_type_table() {
    let context = Context::create();
    let mut compiler = Compiler::new(&context).unwrap();
    let mut module = main_module(&compiler, &context);
    let builder = context.create_builder();
    let before = type_names(&module);
    assert_eq!(before, vec!["Any", "Float32", "Float64", "Int32", "Int64", "String"]);
    let shape = Node::AbstractType { name: "Shape".to_string(), supertype: "Any".to_string() };
    let byte = Node::PrimitiveType {
        name: "Byte".to_string(),
        supertype: "Any".to_string(),
        bits: 8,
    };
    let point = Node::StructType {
        name: "Point".to_string(),
        supertype: "Shape".to_string(),
        field_names: vec!["x".to_string(), "y".to_string()],
        field_types: vec!["Float64".to_string(), "Byte".to_string()],
    };
    assert_eq!(compiler.compile_expr(&builder, &mut module, &shape), Ok(()));
    assert_eq!(compiler.compile_expr(&builder, &mut module, &byte), Ok(()));
    assert_eq!(compiler.compile_expr(&builder, &mut module, &point), Ok(()));
    assert_eq!(compiler.compile_expr(&builder, &mut module, &Node::Empty), Ok(()));
    assert_eq!(type_names(&module)[6..], ["Shape", "Byte", "Point"]);
    assert!(module.get_type("Shape").unwrap().is_abstract());
    assert!(module.get_type("Byte").unwrap().is_primitive());
    let point = module.get_type("Point").unwrap();
    assert_eq!(point.supertype().name(), "Shape");
    assert_eq!(point.field_names()[1].name(), "y");
    assert_eq!(point.field_types()[0].name().name(), "Float64");
    assert_eq!(point.field_types()[1].name().name(), "Byte");
    assert!(!point.is_abstract() && !point.is_primitive() && !point.is_mutable());
    assert_eq!(compiler.depth(), 0);
    assert_eq!(
        compiler.compile_expr(&builder, &mut module, &shape),
        Err(CompileError::DuplicateType("Shape".to_string()))
    );
    assert_eq!(type_names(&module).len(), 9);
}

#[test]
fn struct_with_unknown_or_uneven_fields_is_refused() {
    let context = Context::create();
    let mut compiler = Compiler::new(&context).unwrap();
    let mut module = main_module(&compiler, &context);
    let builder = context.create_builder();
    let unknown = Node::StructType {
        name: "Point".to_string(),
        supertype: "Any".to_string(),
        field_names: vec!["x".to_string(), "y".to_string()],
        field_types: vec!["Int64".to_string(), "Nowhere".to_string()],
    };
    assert_eq!(
        compiler.compile_expr(&builder, &mut module, &unknown),
        Err(CompileError::UndefinedType("Nowhere".to_string()))
    );
    let uneven = Node::StructType {
        name: "Point".to_string(),
        supertype: "Any".to_string(),
        field_names: vec!["x".to_string()],
        field_types: vec![],
    };
    assert_eq!(
        compiler.compile_expr(&builder, &mut module, &uneven),
        Err(CompileError::UnsupportedConstruct)
    );
    assert_eq!(type_names(&module).len(), 6);
    assert_eq!(
        resolve_struct(&module, "P", "Any", &vec!["x".to_string()], &vec!["Z".to_string()]).err(),
        Some(CompileError::UndefinedType("Z".to_string()))
    );
}

#[test]
fn export_list_is_taken_whole_or_not_at_all() {
    let context = Context::create();
    let mut compiler = Compiler::new(&context).unwrap();
    let mut module = main_module(&compiler, &context);
    let builder = context.create_builder();
    let exports = Node::Exports { symbols: vec![named("area"), named("Shape")] };
    assert_eq!(compiler.compile_expr(&builder, &mut module, &exports), Ok(()));
    let listed: Vec<&str> = module.get_exports().iter().map(|s| s.name()).collect();
    assert_eq!(listed, vec!["area", "Shape"]);
    let mixed = vec![named("more"), whole(1)];
    assert_eq!(export_all(&mut module, &mixed), Err(CompileError::UnsupportedConstruct));
    assert_eq!(module.get_exports().len(), 2);
}

#[test]
fn each_failure_has_its_error() {
    let context = Context::create();
    let mut compiler = Compiler::new(&context).unwrap();
    let (mut module, builder) = in_main(&compiler, &context);
    let mut failure = |node: Node| {
        let depth = compiler.depth();
        let r = compiler.compile_expr(&builder, &mut module, &node);
        assert_eq!(compiler.depth(), depth);
        r.err()
    };
    assert_eq!(failure(named("nope")), Some(CompileError::UndefinedSymbol("nope".to_string())));
    assert_eq!(
        failure(binary(Operator::Plus, whole(1), named("nope"))),
        Some(CompileError::UndefinedSymbol("nope".to_string()))
    );
    assert_eq!(
        failure(binary(Operator::Multiply, whole(1), whole(2))),
        Some(CompileError::UnsupportedOperator(Operator::Multiply))
    );
    assert_eq!(
        failure(binary(Operator::Divide, whole(1), whole(2))),
        Some(CompileError::UnsupportedOperator(Operator::Divide))
    );
    assert_eq!(
        failure(binary(Operator::Plus, whole(1), fraction(2.0))),
        Some(CompileError::TypeMismatch)
    );
    assert_eq!(
        failure(binary(Operator::Multiply, fraction(1.0), fraction(2.0))),
        Some(CompileError::TypeMismatch)
    );
    assert_eq!(
        failure(binary(Operator::Plus, whole(1), Node::Primitive(Primitive::Int32(2)))),
        Some(CompileError::TypeMismatch)
    );
    assert_eq!(
        failure(binary(Operator::Plus, whole(1), Node::Empty)),
        Some(CompileError::TypeMismatch)
    );
    assert_eq!(failure(assign("x", Node::Empty)), Some(CompileError::TypeMismatch));
    assert_eq!(
        failure(call("missing", vec![])),
        Some(CompileError::UndefinedFunction("missing".to_string()))
    );
    assert_eq!(
        failure(call("printf", vec![named("x")])),
        Some(CompileError::UndefinedSymbol("x".to_string()))
    );
    assert_eq!(
        failure(call("printf", vec![whole(1), whole(2)])),
        Some(CompileError::UnsupportedConstruct)
    );
    assert_eq!(
        failure(call("printf", vec![Node::Empty])),
        Some(CompileError::TypeMismatch)
    );
    assert_eq!(failure(call("printf", vec![])), Some(CompileError::UnsupportedConstruct));
    assert_eq!(
        failure(Node::UnaryExpr { op: Operator::Minus, child: Box::new(whole(1)) }),
        Some(CompileError::UnsupportedConstruct)
    );
    assert_eq!(
        failure(Node::Module { name: "M".to_string(), exprs: vec![] }),
        Some(CompileError::UnsupportedConstruct)
    );
    assert_eq!(failure(arg("a", "Int64")), Some(CompileError::UnsupportedConstruct));
    assert_eq!(
        failure(function("f", vec![arg("a", "Nowhere")], "Int64", vec![named("a")])),
        Some(CompileError::UndefinedType("Nowhere".to_string()))
    );
    assert_eq!(
        failure(function("f", vec![arg("a", "Any")], "Int64", vec![named("a")])),
        Some(CompileError::UnsupportedPrimitive("Any".to_string()))
    );
    assert_eq!(
        failure(function("f", vec![arg("a", "Int64")], "String", vec![named("a")])),
        Some(CompileError::TypeMismatch)
    );
    assert_eq!(
        failure(function("f", vec![named("a")], "Int64", vec![named("a")])),
        Some(CompileError::UnsupportedConstruct)
    );
    assert_eq!(
        failure(function("g", vec![arg("a", "Int64")], "Int64", vec![])),
        Some(CompileError::TypeMismatch)
    );
    assert_eq!(
        failure(function("h", vec![arg("a", "String")], "Int64", vec![named("a")])),
        Some(CompileError::TypeMismatch)
    );
}

#[test]
fn backend_refuses_instructions_outside_a_function() {
    let context = Context::create();
    let mut compiler = Compiler::new(&context).unwrap();
    let mut module = main_module(&compiler, &context);
    let builder = context.create_builder();
    let sum = binary(Operator::Plus, whole(1), whole(2));
    assert_eq!(compiler.compile_expr(&builder, &mut module, &sum), Err(CompileError::Backend));
    assert_eq!(compiler.depth(), 0);
    assert_eq!(compiler.compile_expr(&builder, &mut module, &whole(1)), Ok(()));
    assert_eq!(compiler.depth(), 1);
}

#[test]
fn binary_step_checks_kinds_then_the_operator() {
    let context = Context::create();
    let compiler = Compiler::new(&context).unwrap();
    let (module, builder) = in_main(&compiler, &context);
    let entry = |literal: Primitive| {
        (literal.emit_ir_value(&builder, &module).unwrap(), literal.get_datatype())
    };
    let eight = entry(Primitive::Int64(8));
    let three = entry(Primitive::Int64(3));
    let half = entry(Primitive::Float64((0.5 as f64).to_bits()));
    let (value, datatype) =
        apply_binary(&builder, Operator::Minus, eight.clone(), three.clone()).unwrap();
    assert_eq!(datatype.name().name(), "Int64");
    assert!(matches!(value, Value::Int(x) if x.get_sign_extended_constant() == Some(5)));
    let (value, _) = apply_binary(&builder, Operator::Plus, eight.clone(), three.clone()).unwrap();
    assert!(matches!(value, Value::Int(x) if x.get_sign_extended_constant() == Some(11)));
    assert_eq!(
        apply_binary(&builder, Operator::Divide, half.clone(), three.clone()).err(),
        Some(CompileError::TypeMismatch)
    );
    assert_eq!(
        apply_binary(&builder, Operator::Divide, eight, three).err(),
        Some(CompileError::UnsupportedOperator(Operator::Divide))
    );
}

#[test]
fn scope_binds_replaces_and_unbinds() {
    let context = Context::create();
    let mut compiler = Compiler::new(&context).unwrap();
    let (module, builder) = in_main(&compiler, &context);
    let one = Primitive::Int64(1).emit_ir_value(&builder, &module).unwrap();
    let two = Primitive::Int32(2).emit_ir_value(&builder, &module).unwrap();
    assert!(compiler.lookup("x").is_none());
    compiler.bind("x", (one, Primitive::Int64(1).get_datatype()));
    compiler.bind("y", (two, Primitive::Int32(2).get_datatype()));
    compiler.bind("x", (two, Primitive::Int32(2).get_datatype()));
    assert_eq!(compiler.lookup("x").unwrap().1.name().name(), "Int32");
    assert_eq!(compiler.lookup("y").unwrap().1.name().name(), "Int32");
    compiler.unbind("x");
    compiler.unbind("never");
    assert!(compiler.lookup("x").is_none());
    assert!(compiler.lookup("y").is_some());
    compiler.push((one, Primitive::Int64(1).get_datatype()));
    compiler.push((two, Primitive::Int32(2).get_datatype()));
    compiler.push((one, Primitive::Int64(1).get_datatype()));
    compiler.drop_above(5);
    assert_eq!(compiler.depth(), 3);
    compiler.drop_above(1);
    assert_eq!(compiler.depth(), 1);
    assert_eq!(compiler.pop().unwrap().1.name().name(), "Int64");
    assert!(compiler.pop().is_none());
}

#[test]
fn module_node_becomes_a_module_of_its_own() {
    let context = Context::create();
    let mut compiler = Compiler::new(&context).unwrap();
    let mut main = main_module(&compiler, &context);
    let ast = vec![
        Node::Module {
            name: "Geometry".to_string(),
            exprs: vec![
                Node::AbstractType { name: "Shape".to_string(), supertype: "Any".to_string() },
                Node::Exports { symbols: vec![named("Shape")] },
                function(
                    "area",
                    vec![arg("w", "Int64"), arg("h", "Int64")],
                    "Int64",
                    vec![binary(Operator::Minus, named("w"), named("h"))],
                ),
            ],
        },
        Node::AbstractType { name: "Local".to_string(), supertype: "Any".to_string() },
    ];
    assert_eq!(compiler.include_ast(&mut main, &ast), Ok(()));
    assert_eq!(type_names(&main)[6..], ["Local"]);
    let geometry = compiler.get_module("Geometry").unwrap();
    assert_eq!(geometry.name().name(), "Geometry");
    assert_eq!(type_names(geometry)[6..], ["Shape"]);
    assert_eq!(geometry.get_exports().len(), 1);
    assert!(geometry.get_function("area_Int64_Int64").is_ok());
    assert!(main.get_function("area_Int64_Int64").is_err());
    assert_eq!(compiler.modules().len(), 2);
    assert!(compiler.get_module("Nowhere").is_none());
    assert_eq!(main.link(geometry), Err(CompileError::Backend));
    assert_eq!(type_names(&main)[6..], ["Local"]);
    let mut apart = Module::new(&context, "Apart");
    assert_eq!(apart.link(geometry), Ok(()));
    assert_eq!(type_names(&apart), vec!["Shape"]);
    assert!(apart.get_function("area_Int64_Int64").is_ok());
}

#[test]
fn failing_module_is_not_registered() {
    let context = Context::create();
    let mut compiler = Compiler::new(&context).unwrap();
    let exprs = vec![
        Node::AbstractType { name: "Shape".to_string(), supertype: "Any".to_string() },
        named("nope"),
    ];
    assert_eq!(
        compiler.compile_module("Broken", &exprs, &context),
        Err(CompileError::UndefinedSymbol("nope".to_string()))
    );
    assert!(compiler.get_module("Broken").is_none());
    assert_eq!(compiler.modules().len(), 1);
    let mut main = main_module(&compiler, &context);
    let ast = vec![
        Node::AbstractType { name: "First".to_string(), supertype: "Any".to_string() },
        Node::AbstractType { name: "First".to_string(), supertype: "Any".to_string() },
        Node::AbstractType { name: "Never".to_string(), supertype: "Any".to_string() },
    ];
    assert_eq!(
        compiler.include_ast(&mut main, &ast),
        Err(CompileError::DuplicateType("First".to_string()))
    );
    assert_eq!(type_names(&main)[6..], ["First"]);
}

#[test]
fn registered_module_replaces_one_of_the_same_name() {
    let context = Context::create();
    let mut compiler = Compiler::new(&context).unwrap();
    let mut first = Module::new(&context, "Main");
    first.insert_type(DataType::new_abstract_type("Old", "Any")).unwrap();
    compiler.insert_module("Main", first);
    let mut second = Module::new(&context, "Other");
    second.insert_type(DataType::new_abstract_type("New", "Any")).unwrap();
    compiler.insert_module("Main", second);
    assert_eq!(compiler.modules().len(), 2);
    let found = compiler.get_module("Main").unwrap();
    assert_eq!(found.name().name(), "Other");
    assert_eq!(type_names(found), vec!["New"]);
    assert!(compiler.get_module("Core").is_some());
}

#[test]
fn value_without_a_format_is_refused_before_anything_is_emitted() {
    let context = Context::create();
    let mut compiler = Compiler::new(&context).unwrap();
    let (mut module, builder) = in_main(&compiler, &context);
    let letter = assign("c", Node::Primitive(Primitive::Char('c')));
    assert_eq!(compiler.compile_expr(&builder, &mut module, &letter), Ok(()));
    let before = module.print_to_string();
    assert_eq!(
        compiler.compile_expr(&builder, &mut module, &call("printf", vec![named("c")])),
        Err(CompileError::UnsupportedPrimitive("Char".to_string()))
    );
    assert_eq!(
        compiler.compile_expr(&builder, &mut module, &call("printf", vec![named("c"), named("c")])),
        Err(CompileError::UnsupportedConstruct)
    );
    assert_eq!(
        compiler.compile_method_call(&builder, &mut module, "printf", &vec![named("c"), whole(1)]),
        Err(CompileError::UnsupportedConstruct)
    );
    assert_eq!(module.print_to_string(), before);
    assert_eq!(compiler.depth(), 0);
}

#[test]
fn assignment_of_a_name_copies_the_binding() {
    let context = Context::create();
    let mut compiler = Compiler::new(&context).unwrap();
    let mut module = main_module(&compiler, &context);
    let builder = context.create_builder();
    assert_eq!(compiler.compile_expr(&builder, &mut module, &assign("x", whole(7))), Ok(()));
    let copy = assign("y", Node::ParenthesesExpr { expr: Box::new(named("x")) });
    assert_eq!(compiler.compile_expr(&builder, &mut module, &copy), Ok(()));
    let (value, datatype) = compiler.lookup("y").unwrap();
    assert_eq!(datatype.name().name(), "Int64");
    assert!(matches!(value, Value::Int(x) if x.get_sign_extended_constant() == Some(7)));
    assert_eq!(
        compiler.compile_expr(&builder, &mut module, &assign("z", named("w"))),
        Err(CompileError::UndefinedSymbol("w".to_string()))
    );
    assert!(compiler.lookup("z").is_none());
    let nothing = Node::ParenthesesExpr {
        expr: Box::new(Node::AbstractType {
            name: "Made".to_string(),
            supertype: "Any".to_string(),
        }),
    };
    assert_eq!(
        compiler.compile_expr(&builder, &mut module, &assign("z", nothing)),
        Err(CompileError::TypeMismatch)
    );
    assert!(module.has_type("Made"));
    assert_eq!(compiler.depth(), 0);
}

#[test]
fn values_left_by_statements_are_dropped() {
    let context = Context::create();
    let mut compiler = Compiler::new(&context).unwrap();
    let mut module = main_module(&compiler, &context);
    let builder = context.create_builder();
    let main = function("main", vec![], "Any", vec![whole(1), whole(2), whole(3)]);
    assert_eq!(compiler.compile_expr(&builder, &mut module, &main), Ok(()));
    assert_eq!(compiler.depth(), 0);
    let last = function("last", vec![arg("a", "Int64")], "Int64", vec![whole(1), named("a"), whole(9)]);
    assert_eq!(compiler.compile_expr(&builder, &mut module, &last), Ok(()));
    assert_eq!(compiler.depth(), 0);
    assert!(module.print_to_string().contains("ret i64 9"));
    assert!(module.module().verify().is_ok());
}

#[test]
fn statements_are_compiled_up_to_the_first_failure() {
    let context = Context::create();
    let mut compiler = Compiler::new(&context).unwrap();
    let mut module = main_module(&compiler, &context);
    let builder = context.create_builder();
    assert_eq!(compiler.compile_body(&builder, &mut module, &vec![]), Ok(()));
    assert_eq!(type_names(&module).len(), 6);
    let body = vec![
        Node::Empty,
        Node::AbstractType { name: "Shape".to_string(), supertype: "Any".to_string() },
        assign("x", whole(4)),
        named("x"),
        named("nope"),
        Node::AbstractType { name: "Never".to_string(), supertype: "Any".to_string() },
    ];
    assert_eq!(
        compiler.compile_body(&builder, &mut module, &body),
        Err(CompileError::UndefinedSymbol("nope".to_string()))
    );
    assert_eq!(type_names(&module)[6..], ["Shape"]);
    assert!(compiler.lookup("x").is_some());
    assert_eq!(compiler.depth(), 1);
    assert_eq!(compiler.stack()[0].1.name().name(), "Int64");
}

#[test]
fn decided_inclusion_leaves_the_registered_modules() {
    let context = Context::create();
    let mut compiler = Compiler::new(&context).unwrap();
    let mut module = main_module(&compiler, &context);
    assert_eq!(compiler.include_ast(&mut module, &vec![]), Ok(()));
    let ast = vec![
        Node::Exports { symbols: vec![named("Shape")] },
        Node::SuperType("Any".to_string()),
    ];
    assert_eq!(
        compiler.include_ast(&mut module, &ast),
        Err(CompileError::UnsupportedConstruct)
    );
    assert_eq!(module.get_exports().len(), 1);
    assert_eq!(compiler.modules().len(), 1);
    assert_eq!(compiler.depth(), 0);
    assert!(std::ptr::eq(module.get_context(), &context));
}
