use std::mem;

use thrush::ast::{BinOp, Expr, Lit};
use thrush::chunk::Chunk;
use thrush::compiler::Compiler;
use thrush::instruction::{InstanceValue, Instruction};
use thrush::lexer::Lexer;
use thrush::parser::Parser;
use thrush::scope::State;
use thrush::value::{BoundMethod, Callable, Class, ClassRef, FromValue, Heap, Instance, InstanceFun, ToValue, Value};
use thrush::vm::{Stack, Vm, VmError};
use thrush::{Error, Thrush};

/// A host method: a plain function over the receiver's fields and the
/// arguments, or one that also sees the heap and the receiver.
enum Native {
    Plain(fn(&mut Vec<Value>, Vec<Value>) -> Value),
    WithReceiver(fn(&Heap<Native>, usize, &mut Vec<Value>, Vec<Value>) -> Value),
}

impl Callable for Native {
    fn call(&self, heap: &Heap<Native>, receiver: usize, fields: &mut Vec<Value>, args: Vec<Value>) -> Value {
        match self {
            Native::Plain(f) => f(fields, args),
            Native::WithReceiver(f) => f(heap, receiver, fields, args),
        }
    }
}

fn compile(src: &str) -> Result<Chunk, String> {
    let ast = Parser::new(Lexer::tokenize(src)).parse()?;
    Compiler::new().run(ast)
}

fn append_one(fields: &mut Vec<Value>, _: Vec<Value>) -> Value {
    fields.push(Value::Integer(1));
    Value::Nil
}

fn increment_first(fields: &mut Vec<Value>, _: Vec<Value>) -> Value {
    if let Value::Integer(v) = &mut fields[0] {
        *v += 1;
    }
    Value::Nil
}

#[test]
fn compile_literal() {
    let chunk = compile("1").unwrap();

    assert_eq!(chunk.instructions[0], Instruction::Push { value: InstanceValue::Integer(1) });
}

#[test]
fn test_vm() {
    let ast = Parser::new(Lexer::tokenize("1 + 2")).parse().unwrap();
    let mut compiler = Compiler::new();
    let _chunk = compiler.run(ast).unwrap();
}

#[test]
fn test_instruction_size() {
    assert!(mem::size_of::<Instruction>() <= 24);
}

#[test]
fn test_bound_method() {
    let mut heap: Heap<Native> = Heap::new();
    let class = heap.add_class("Test");
    heap.classes[class].add_method(
        "x",
        Native::Plain(|this, _| {
            this.push(Value::Integer(10));
            Value::Nil
        }),
    );
    heap.classes[class].add_method("y", Native::Plain(increment_first));
    let receiver = heap.instance(class).unwrap();

    let method1 = heap.bind(receiver, "x").unwrap();
    let method2 = heap.bind(receiver, "y").unwrap();

    heap.call(method1, vec![]).unwrap();

    for _ in 0..10 {
        heap.call(method2, vec![]).unwrap();
    }

    assert_eq!(&heap.instances[receiver].fields()[0], &Value::Integer(20));
}

#[test]
fn test_bound_method_args() {
    let mut heap: Heap<Native> = Heap::new();
    let class = heap.add_class("Args");
    heap.classes[class].add_method(
        "constructor",
        Native::Plain(|this, _| {
            this.push(Value::Integer(1));
            Value::Nil
        }),
    );
    heap.classes[class].add_method(
        "add",
        Native::Plain(|this, args| {
            (i32::from_value(&this[0]).unwrap() + i32::from_value(&args[0]).unwrap()).to_value()
        }),
    );
    let receiver = heap.instance(class).unwrap();

    let constructor = heap.bind(receiver, "constructor").unwrap();
    let method = heap.bind(receiver, "add").unwrap();

    heap.call(constructor, vec![]).unwrap();

    assert_eq!(heap.call(method, vec![2_i32.to_value()]), Ok(3_i32.to_value()));
}

#[test]
fn test_class() {
    let mut heap: Heap<Native> = Heap::new();
    let class = heap.add_class("Io");

    heap.classes[class].add_method("to_string", Native::Plain(|_, _| Value::String("__io__".into())));

    heap.classes[class].add_method(
        "print",
        Native::WithReceiver(|heap, this, fields, args| {
            let name = heap.invoke_on(this, "to_string", fields, vec![]).unwrap();

            println!("{}", name.to_text(heap));
            println!("{}", args[0].to_text(heap));

            Value::Nil
        }),
    );

    let receiver = heap.instance(class).unwrap();

    let bound = heap.bind(receiver, "print").unwrap();

    heap.call(bound, vec!["Hello, World!".to_value()]).unwrap();
}

#[test]
fn a_method_runs_another_method_of_its_receiver() {
    let mut heap: Heap<Native> = Heap::new();
    let class = heap.add_class("Counter");
    heap.classes[class].add_method("init", Native::Plain(append_one));
    heap.classes[class].add_method("bump", Native::Plain(increment_first));
    heap.classes[class].add_method(
        "bump_twice",
        Native::WithReceiver(|heap, this, fields, _| {
            heap.invoke_on(this, "bump", fields, vec![]).unwrap();
            heap.invoke_on(this, "bump", fields, vec![]).unwrap()
        }),
    );
    let receiver = heap.instance(class).unwrap();
    heap.invoke(receiver, "init", vec![]).unwrap();
    heap.invoke(receiver, "bump_twice", vec![]).unwrap();
    assert_eq!(heap.instances[receiver].fields, vec![Value::Integer(3)]);
    let mut spare = vec![Value::Integer(9)];
    assert_eq!(heap.invoke_on(receiver, "missing", &mut spare, vec![]), Err(VmError::NoSuchMethod("missing".to_string())));
    assert_eq!(heap.invoke_on(5, "bump", &mut spare, vec![]), Err(VmError::InvalidHandle));
    assert_eq!(spare, vec![Value::Integer(9)]);
}

#[test]
fn fields_are_shared_between_bound_methods() {
    for n in [0_i64, 1, 5] {
        let mut heap: Heap<Native> = Heap::new();
        let class = heap.add_class("Counter");
        heap.classes[class].add_method("init", Native::Plain(append_one));
        heap.classes[class].add_method("bump", Native::Plain(increment_first));
        let receiver = heap.instance(class).unwrap();
        let init = heap.bind(receiver, "init").unwrap();
        let bump = heap.bind(receiver, "bump").unwrap();
        heap.call(init, vec![]).unwrap();
        for _ in 0..n {
            heap.call(bump, vec![]).unwrap();
        }
        assert_eq!(heap.instances[receiver].fields[0], Value::Integer(1 + n));
    }
}

#[test]
fn methods_resolve_at_call_time() {
    let mut heap: Heap<Native> = Heap::new();
    let class = heap.add_class("Bird");
    let receiver = heap.instance(class).unwrap();
    assert_eq!(heap.bind(receiver, "sound"), Err(VmError::NoSuchMethod("sound".to_string())));
    heap.classes[class].add_method("sound", Native::Plain(|_, _| Value::Integer(1)));
    assert_eq!(heap.invoke(receiver, "sound", vec![]), Ok(Value::Integer(1)));
    heap.classes[class].add_method("sound", Native::Plain(|_, _| Value::Integer(2)));
    assert_eq!(heap.classes[class].methods.len(), 1);
    assert_eq!(heap.invoke(receiver, "sound", vec![]), Ok(Value::Integer(2)));
    assert_eq!(heap.bind(7, "sound"), Err(VmError::InvalidHandle));
    assert_eq!(heap.instance(9), Err(VmError::InvalidHandle));
    assert_eq!(heap.call(BoundMethod::new(receiver, 4), vec![]), Err(VmError::InvalidHandle));
}

#[test]
fn object_constructors() {
    let class: Class<Native> = Class::new("Pie");
    assert_eq!(class.name, "Pie");
    assert_eq!(class.find_method("eat"), None);
    let instance = Instance::new(3);
    assert_eq!(instance.class, 3);
    assert!(instance.fields().is_empty());
    let fun = InstanceFun::new("eat", 5_u8);
    assert_eq!(fun.name, "eat");
    assert_eq!(Value::Integer(4).duplicate(), Value::Integer(4));
}

#[test]
fn compiled_chunks_end_in_one_halt_and_balance_the_stack() {
    let chunk = compile("class A {}\nvar a = A()\na.b()\n1 + 2 * 3").unwrap();
    let halts = chunk.instructions.iter().filter(|i| **i == Instruction::Halt).count();
    assert_eq!(halts, 1);
    assert_eq!(chunk.instructions.last(), Some(&Instruction::Halt));
    assert_eq!(
        chunk.instructions,
        vec![
            Instruction::Class { index: 0 },
            Instruction::DefineGlobal { index: 0 },
            Instruction::GetGlobal { index: 1 },
            Instruction::Call,
            Instruction::DefineGlobal { index: 2 },
            Instruction::GetGlobal { index: 3 },
            Instruction::GetProperty { index: 4 },
            Instruction::Call,
            Instruction::Pop,
            Instruction::integer(1),
            Instruction::integer(2),
            Instruction::integer(3),
            Instruction::Binary { op: BinOp::Mul },
            Instruction::Binary { op: BinOp::Add },
            Instruction::Pop,
            Instruction::Halt,
        ]
    );
    assert_eq!(chunk.variables, vec!["A", "A", "a", "a", "b"]);
}

#[test]
fn unsupported_shapes_fail_to_compile() {
    assert!(compile("-1").is_err());
    assert!(compile("!1").is_err());
    let mut compiler = Compiler::new();
    let ast = thrush::ast::Ast { nodes: vec![thrush::ast::Stmt::Expr(Expr::Literal(Lit::String("s".to_string())))] };
    assert!(compiler.run(ast).is_err());
    let mut compiler = Compiler::new();
    let ast = thrush::ast::Ast { nodes: vec![thrush::ast::Stmt::Expr(Expr::Literal(Lit::Nil))] };
    assert_eq!(compiler.run(ast).unwrap().instructions, vec![Instruction::LoadNil, Instruction::Pop, Instruction::Halt]);
}

#[test]
fn executing_an_expression_changes_no_globals() {
    let mut thrush: Thrush<Native> = Thrush::new();
    thrush.globals().add("x", 34_i64);
    assert_eq!(thrush.exec("1"), Ok(()));
    assert_eq!(thrush.globals().get::<i64>("x"), Ok(34));
    assert_eq!(thrush.globals().get::<Value>("1"), Err("cannot find name in this scope".to_string()));
    assert!(thrush.vm.heap.classes.is_empty());
}

#[test]
fn class_declaration_defines_a_class_global() {
    let mut thrush: Thrush<Native> = Thrush::new();
    assert_eq!(thrush.exec("class Bird {}"), Ok(()));
    let bird = thrush.globals().get::<Value>("Bird").unwrap();
    match bird {
        Value::Class(c) => assert_eq!(thrush.vm.heap.classes[c].name, "Bird"),
        other => panic!("not a class: {:?}", other),
    }
}

#[test]
fn calling_a_class_makes_an_instance() {
    let mut thrush: Thrush<Native> = Thrush::new();
    assert_eq!(thrush.exec("class Bird {}"), Ok(()));
    assert_eq!(thrush.exec("var instance = Bird()"), Ok(()));
    match thrush.globals().get::<Value>("instance").unwrap() {
        Value::Instance(i) => {
            let class = thrush.vm.heap.instances[i].class;
            assert_eq!(thrush.vm.heap.classes[class].name, "Bird");
        },
        other => panic!("not an instance: {:?}", other),
    }
}

#[test]
fn scripts_call_host_methods() {
    let mut thrush: Thrush<Native> = Thrush::new();
    thrush.exec("class Counter {}\nvar c = Counter()").unwrap();
    let class = match thrush.globals().get::<Value>("Counter").unwrap() {
        Value::Class(c) => c,
        _ => unreachable!(),
    };
    thrush.vm_mut().heap.classes[class].add_method("init", Native::Plain(append_one));
    thrush.vm_mut().heap.classes[class].add_method("bump", Native::Plain(increment_first));
    thrush.exec("c.init()\nc.bump()\nc.bump()").unwrap();
    let instance = match thrush.globals().get::<Value>("c").unwrap() {
        Value::Instance(i) => i,
        _ => unreachable!(),
    };
    assert_eq!(thrush.vm.heap.instances[instance].fields, vec![Value::Integer(3)]);
}

#[test]
fn arithmetic_evaluates() {
    let mut thrush: Thrush<Native> = Thrush::new();
    thrush.exec("var x = 4 + 2 * 5\nvar y = 1 - 2 - 3\nvar z = (7 % 4) / 2").unwrap();
    assert_eq!(thrush.globals().get::<i64>("x"), Ok(14));
    assert_eq!(thrush.globals().get::<i64>("y"), Ok(-4));
    assert_eq!(thrush.globals().get::<i64>("z"), Ok(1));
    assert_eq!(thrush.exec("var w = 1 / 0"), Err(Error::Runtime(VmError::ArithmeticError)));
    assert_eq!(thrush.exec("var w = 9223372036854775807 + 1"), Err(Error::Runtime(VmError::ArithmeticError)));
}

#[test]
fn runtime_errors_are_typed() {
    let mut thrush: Thrush<Native> = Thrush::new();
    assert_eq!(thrush.exec("missing"), Err(Error::Runtime(VmError::NameError("missing".to_string()))));
    assert_eq!(thrush.exec("1.name"), Err(Error::Runtime(VmError::TypeError)));
    assert_eq!(thrush.exec("1()"), Err(Error::Runtime(VmError::NotCallable)));
    thrush.exec("class A {}\nvar a = A()").unwrap();
    assert_eq!(thrush.exec("a.nothing()"), Err(Error::Runtime(VmError::NoSuchMethod("nothing".to_string()))));
    assert_eq!(thrush.exec("a + 1"), Err(Error::Runtime(VmError::OperandError)));
    assert!(matches!(thrush.exec("1 +"), Err(Error::Syntax(_))));
    assert!(matches!(thrush.exec("-1"), Err(Error::Compile(_))));
}

#[test]
fn globals_defined_before_a_failure_stay_defined() {
    let mut thrush: Thrush<Native> = Thrush::new();
    assert!(thrush.exec("var a = 1\nvar b = missing").is_err());
    assert_eq!(thrush.globals().get::<i64>("a"), Ok(1));
    assert!(thrush.globals().get::<i64>("b").is_err());
}

#[test]
fn globals_coerce_on_read() {
    let mut state = State::new();
    state.add("x", 34_i32);
    state.add("y", "Hello".to_string());
    state.add("z", true);
    state.add("x", 35_i64);
    assert_eq!(state.get::<i32>("x"), Ok(35));
    assert_eq!(state.get::<String>("y"), Ok("Hello".to_string()));
    assert_eq!(state.get::<bool>("z"), Ok(true));
    assert!(state.get::<bool>("x").is_err());
    assert_eq!(state.lookup("y"), Some(Value::String("Hello".to_string())));
    assert_eq!(state.lookup("w"), None);
}

#[test]
fn machine_rejects_malformed_chunks() {
    let mut vm: Vm<Native> = Vm::new();
    let chunk = Chunk { instructions: vec![Instruction::Pop, Instruction::Halt], variables: Vec::new() };
    assert_eq!(vm.execute(chunk), Err(VmError::StackUnderflow));
    vm.reset();
    let chunk = Chunk { instructions: vec![Instruction::GetGlobal { index: 3 }, Instruction::Halt], variables: Vec::new() };
    assert_eq!(vm.execute(chunk), Err(VmError::BadChunk));
    vm.reset();
    let chunk = Chunk { instructions: vec![Instruction::LoadNil], variables: Vec::new() };
    assert_eq!(vm.execute(chunk), Err(VmError::BadChunk));
    vm.reset();
    let chunk = Chunk {
        instructions: vec![Instruction::integer(5), Instruction::SetGlobal { index: 0 }, Instruction::Halt],
        variables: vec!["v".to_string()],
    };
    assert_eq!(vm.execute(chunk), Err(VmError::NameError("v".to_string())));
    vm.reset();
    vm.state.add("v", 1_i64);
    let chunk = Chunk {
        instructions: vec![Instruction::integer(5), Instruction::SetGlobal { index: 0 }, Instruction::Pop, Instruction::Halt],
        variables: vec!["v".to_string()],
    };
    assert_eq!(vm.execute(chunk), Ok(()));
    assert_eq!(vm.state.get::<i64>("v"), Ok(5));
    let mut stack = Stack::new();
    assert_eq!(stack.pop(), Err(VmError::StackUnderflow));
    stack.push(Value::Bool(true));
    assert_eq!(stack.len(), 1);
    stack.clear();
    assert_eq!(stack.len(), 0);
}

#[test]
fn values_read_as_text() {
    let mut heap: Heap<Native> = Heap::new();
    let class = heap.add_class("Bird");
    heap.classes[class].add_method("sound", Native::Plain(|_, _| Value::Nil));
    let instance = heap.instance(class).unwrap();
    let method = heap.bind(instance, "sound").unwrap();
    assert_eq!(Value::Integer(-120).to_text(&heap), "-120");
    assert_eq!(Value::Integer(i64::MIN).to_text(&heap), "-9223372036854775808");
    assert_eq!(Value::Integer(0).to_text(&heap), "0");
    assert_eq!(Value::Bool(false).to_text(&heap), "false");
    assert_eq!(Value::String("hi".to_string()).to_text(&heap), "hi");
    assert_eq!(Value::Nil.to_text(&heap), "nil");
    assert_eq!(Value::Class(class).to_text(&heap), "<Class Bird>");
    assert_eq!(Value::Instance(instance).to_text(&heap), "<instance Bird>");
    assert_eq!(Value::Method(method).to_text(&heap), "<method Bird.sound>");
    assert_eq!(Value::Class(8).to_text(&heap), "<Class ?>");
    assert_eq!(Value::from(()), Value::Nil);
}

#[test]
fn host_registers_a_class_global() {
    let mut vm: Vm<Native> = Vm::new();
    let class = vm.add_class("Pie").unwrap();
    assert_eq!(vm.state.get::<Value>("Pie"), Ok(Value::Class(class)));
    assert_eq!(vm.heap.classes[class].name, "Pie");
}

#[test]
fn instance_fields_can_be_edited_by_the_host() {
    let mut instance = Instance::new(0);
    instance.fields_mut().push(Value::Integer(7));
    assert_eq!(instance.fields(), &vec![Value::Integer(7)]);
}

#[test]
fn global_read_errors_say_which() {
    let mut state = State::new();
    state.add("flag", true);
    assert_eq!(state.get::<i64>("flag"), Err("cannot coerce type from value".to_string()));
    assert_eq!(state.get::<i64>("nothing"), Err("cannot find name in this scope".to_string()));
}

#[test]
fn host_values_convert() {
    let mut state = State::new();
    let text = String::from("owned");
    let mut buffer = String::from("mut");
    state.add("a", "slice");
    state.add("b", &text);
    state.add("c", Box::<str>::from("boxed"));
    state.add("d", buffer.as_mut_str());
    state.add("e", u64::MAX);
    state.add("f", 7_usize);
    state.add("g", -3_isize);
    state.add("h", 5_u128);
    state.add("i", 6_i128);
    assert_eq!(state.get::<String>("a"), Ok("slice".to_string()));
    assert_eq!(state.get::<String>("b"), Ok("owned".to_string()));
    assert_eq!(state.get::<String>("c"), Ok("boxed".to_string()));
    assert_eq!(state.get::<String>("d"), Ok("mut".to_string()));
    assert_eq!(state.get::<i64>("e"), Ok(-1));
    assert_eq!(state.get::<i64>("f"), Ok(7));
    assert_eq!(state.get::<i64>("g"), Ok(-3));
    assert_eq!(state.get::<i64>("h"), Ok(5));
    assert_eq!(state.get::<i64>("i"), Ok(6));
}

#[test]
fn class_globals_read_as_handles() {
    let mut thrush: Thrush<Native> = Thrush::new();
    thrush.exec("class Bird {}").unwrap();
    let ClassRef(c) = thrush.globals().get::<ClassRef>("Bird").unwrap();
    assert_eq!(thrush.vm.heap.classes[c].name, "Bird");
    thrush.globals().add("n", 1_i64);
    assert_eq!(thrush.globals().get::<ClassRef>("n"), Err("cannot coerce type from value".to_string()));
}
