use std::collections::HashMap;

use cosmicc::error::{CompileError, Error, Location};
use cosmicc::hir::{
    ArrayType, BinaryOp, ComparisonToken, Declaration, Expr, ExprType, Field, FunctionType,
    Initializer, LiteralValue, ScalarInitializer, Stmt, StmtType, StorageClass, Symbol, Type,
    TypeKind,
};
use cosmicc::ir::{BinaryInst, IntCC, IrType, Op, UnaryInst};
use cosmicc::lower::function::plan_function;
use cosmicc::lower::state::{FunctionLowerer, SymbolTables};
use cosmicc::lower::stmt::statement_kind;
use cosmicc::unit::data::{scalar_initializer_is_zero, static_address_target, ObjectWriter};
use cosmicc::unit::finish::{
    finish_function, finish_unit, BackendOutcome, BackendRelocation, RelocationKind,
    RelocationTarget,
};
use cosmicc::unit::plan::plan_unit;
use cosmicc::unit::strings::string_symbol_name;

const HERE: Location = Location { file: 0, start: 7, end: 9 };

fn ty(kind: TypeKind, size: u64, scalar: bool) -> Type {
    Type { kind, size: Ok(size), align: Ok(size.max(1)), scalar, repr: "T".into() }
}

fn number() -> Type {
    ty(TypeKind::Int(true), 4, true)
}

fn byte() -> Type {
    ty(TypeKind::Char(false), 1, true)
}

fn void() -> Type {
    Type { size: Err("void has no size".into()), ..ty(TypeKind::Void, 0, false) }
}

fn pointer(to: Type) -> Type {
    ty(TypeKind::Pointer(Box::new(to)), 4, true)
}

fn array(of: Type, count: u64) -> Type {
    let size = of.size.clone().unwrap() * count;
    let align = of.align.clone();
    Type {
        align,
        ..ty(TypeKind::Array(Box::new(of), ArrayType::Fixed(count)), size, false)
    }
}

fn pair() -> Type {
    let fields = vec![Field { id: 0, ctype: number() }, Field { id: 1, ctype: number() }];
    Type { align: Ok(4), ..ty(TypeKind::Struct(fields), 8, false) }
}

fn union() -> Type {
    ty(TypeKind::Union(vec![Field { id: 0, ctype: number() }]), 4, false)
}

fn function_type(result: Type, params: Vec<Symbol>, varargs: bool) -> FunctionType {
    FunctionType { return_type: Box::new(result), params, varargs }
}

fn symbol(key: u32, name: &str, ctype: Type) -> Symbol {
    Symbol {
        key,
        name: name.into(),
        ctype: Box::new(ctype),
        storage_class: StorageClass::Auto,
        is_const: false,
        repr: name.into(),
    }
}

fn expr(expr: ExprType, ctype: Type) -> Expr {
    Expr { expr, ctype, location: HERE, repr: "E".into() }
}

fn literal(value: i64) -> Expr {
    expr(ExprType::Literal(LiteralValue::Int(value)), number())
}

fn id(key: u32, ctype: Type, again: Type) -> Expr {
    expr(ExprType::Id(symbol(key, "x", ctype)), again)
}

fn binary(operator: BinaryOp, left: Expr, right: Expr, ctype: Type) -> Expr {
    expr(ExprType::Binary(operator, Box::new(left), Box::new(right)), ctype)
}

fn stmt(data: StmtType) -> Stmt {
    Stmt { data, location: HERE }
}

fn ret(value: Option<Expr>) -> Stmt {
    stmt(StmtType::Return(value.map(Box::new)))
}

fn scalar(expression: Expr, folded: Expr) -> Initializer {
    Initializer::Scalar(Box::new(ScalarInitializer {
        expression,
        folded: Ok(folded),
        folded_is_zero: false,
    }))
}

fn constant(value: i64) -> Initializer {
    scalar(literal(value), literal(value))
}

fn tables() -> SymbolTables {
    SymbolTables { functions: HashMap::new(), globals: HashMap::new(), strings: Vec::new() }
}

fn steps(e: &Expr) -> Result<Vec<Op>, Error> {
    let tables = tables();
    let mut lowerer = FunctionLowerer::new(Vec::new(), &tables, None, None, 0);
    lowerer.compile_expr(e)?;
    Ok(lowerer.ops)
}

fn refusal(e: &Expr) -> String {
    let error = steps(e).unwrap_err();
    assert!(matches!(error, Error::Unsupported { location: HERE, .. }));
    error.to_string()
}

fn local(ctype: Type, init: Option<Initializer>) -> Result<Vec<Op>, Error> {
    let tables = tables();
    let mut lowerer = FunctionLowerer::new(Vec::new(), &tables, None, None, 0);
    let symbol = symbol(1, "x", ctype);
    lowerer.compile_local(&Declaration { symbol, init, location: HERE })?;
    Ok(lowerer.ops)
}

fn local_refusal(ctype: Type, init: Initializer) -> String {
    local(ctype, Some(init)).unwrap_err().to_string()
}

fn statement_refusal(data: StmtType) -> String {
    let tables = tables();
    let mut lowerer = FunctionLowerer::new(Vec::new(), &tables, None, None, 0);
    lowerer.compile_stmt(&stmt(data)).unwrap_err().to_string()
}

#[test]
fn a_whole_function_is_a_list_of_steps() {
    let params = vec![symbol(1, "x", number())];
    let sum = binary(
        BinaryOp::Add,
        expr(ExprType::Deref(Box::new(id(1, number(), number()))), number()),
        literal(3),
        number(),
    );
    let plan = plan_function(
        &function_type(number(), params, false),
        &vec![ret(Some(sum))],
        HERE,
        &tables(),
    )
    .unwrap();
    assert_eq!(plan.parameters, vec![IrType::I32]);
    assert_eq!(plan.result_type, Some(IrType::I32));
    assert_eq!(
        plan.ops,
        vec![
            Op::CreateBlock,
            Op::AppendFunctionParams { block: 0 },
            Op::SwitchToBlock { block: 0 },
            Op::SealBlock { block: 0 },
            Op::FunctionParam { index: 0, ty: IrType::I32 },
            Op::DeclareVar { ty: IrType::I32 },
            Op::DefVar { variable: 5, value: 4 },
            Op::UseVar { variable: 5, ty: IrType::I32 },
            Op::Iconst { ty: IrType::I32, value: 3 },
            Op::Binary { inst: BinaryInst::Iadd, ty: IrType::I32, left: 7, right: 8 },
            Op::ReturnValue { value: 9 },
            Op::SealAllBlocks,
        ]
    );
}

#[test]
fn a_lone_void_parameter_is_none() {
    let params = vec![symbol(1, "", void())];
    let plan =
        plan_function(&function_type(void(), params, false), &Vec::new(), HERE, &tables()).unwrap();
    assert!(plan.parameters.is_empty());
    assert_eq!(plan.result_type, None);
    assert_eq!(plan.ops[4..], [Op::Return, Op::SealAllBlocks]);
}

#[test]
fn a_copy_takes_two_steps_for_each_byte() {
    let tables = tables();
    let mut lowerer = FunctionLowerer::new(
        vec![Op::Iconst { ty: IrType::I32, value: 16 }, Op::Iconst { ty: IrType::I32, value: 32 }],
        &tables,
        None,
        None,
        0,
    );
    lowerer.copy_aggregate_value(0, 1, &array(byte(), 3), HERE).unwrap();
    assert_eq!(
        lowerer.ops[2..],
        [
            Op::Load { ty: IrType::I8, address: 1, offset: 0 },
            Op::Store { value: 2, address: 0, offset: 0 },
            Op::Load { ty: IrType::I8, address: 1, offset: 1 },
            Op::Store { value: 4, address: 0, offset: 1 },
            Op::Load { ty: IrType::I8, address: 1, offset: 2 },
            Op::Store { value: 6, address: 0, offset: 2 },
        ]
    );
    let huge = ty(TypeKind::Struct(Vec::new()), 0x8000_0000, false);
    assert_eq!(
        lowerer.copy_aggregate_value(0, 1, &huge, HERE).unwrap_err().to_string(),
        "aggregate copy is too large for SIA32"
    );
}

#[test]
fn narrow_integers_are_widened_before_they_are_narrowed() {
    let tables = tables();
    let mut lowerer = FunctionLowerer::new(
        vec![Op::Iconst { ty: IrType::I16, value: 1 }],
        &tables,
        None,
        None,
        0,
    );
    let short = ty(TypeKind::Short(true), 2, true);
    assert_eq!(lowerer.coerce_integer_value(0, IrType::I16, &short), 0);
    assert_eq!(lowerer.coerce_integer_value(0, IrType::I8, &short), 2);
    assert_eq!(lowerer.coerce_integer_value(0, IrType::I32, &byte()), 3);
    assert_eq!(lowerer.coerce_integer_value(3, IrType::I8, &byte()), 4);
    assert_eq!(
        lowerer.ops[1..],
        [
            Op::Unary { inst: UnaryInst::Sextend, ty: IrType::I32, value: 0 },
            Op::Unary { inst: UnaryInst::Ireduce, ty: IrType::I8, value: 1 },
            Op::Unary { inst: UnaryInst::Uextend, ty: IrType::I32, value: 0 },
            Op::Unary { inst: UnaryInst::Ireduce, ty: IrType::I8, value: 3 },
        ]
    );
}

#[test]
fn the_address_of_a_dereference_loads_nothing() {
    let tables = tables();
    let mut lowerer = FunctionLowerer::new(
        vec![Op::DeclareVar { ty: IrType::I32 }],
        &tables,
        None,
        None,
        0,
    );
    lowerer.variables.insert(1, 0);
    let p = || id(1, pointer(number()), pointer(number()));
    let deref = expr(ExprType::Deref(Box::new(p())), number());
    let address = expr(ExprType::StaticRef(Box::new(deref)), pointer(number()));
    assert_eq!(lowerer.compile_expr(&address).unwrap(), 1);
    assert_eq!(lowerer.compile_expr(&p()).unwrap(), 2);
    assert_eq!(lowerer.ops[1], lowerer.ops[2]);
}

#[test]
fn constants_keep_their_bits() {
    let unsigned = expr(
        ExprType::Literal(LiteralValue::UnsignedInt(u64::MAX)),
        ty(TypeKind::Long(false), 4, true),
    );
    assert_eq!(steps(&unsigned).unwrap(), vec![Op::Iconst { ty: IrType::I32, value: -1 }]);
    let half = |kind, size| {
        expr(
            ExprType::Literal(LiteralValue::Float {
                double_bits: 0.5f64.to_bits(),
                single_bits: 0.5f32.to_bits(),
            }),
            ty(kind, size, true),
        )
    };
    assert_eq!(
        steps(&half(TypeKind::Float, 4)).unwrap(),
        vec![Op::F32Const { bits: 0x3f00_0000 }]
    );
    assert_eq!(
        steps(&half(TypeKind::Double, 8)).unwrap(),
        vec![Op::F64Const { bits: 0x3fe0_0000_0000_0000 }]
    );
    let character = expr(ExprType::Literal(LiteralValue::Char(0xff)), byte());
    assert_eq!(steps(&character).unwrap(), vec![Op::Iconst { ty: IrType::I8, value: 255 }]);
}

#[test]
fn comparisons_become_ints() {
    let e = binary(
        BinaryOp::Compare(ComparisonToken::GreaterEqual),
        literal(1),
        literal(2),
        number(),
    );
    assert_eq!(
        steps(&e).unwrap()[2..],
        [
            Op::CompareInt { condition: IntCC::SignedGreaterThanOrEqual, left: 0, right: 1 },
            Op::Unary { inst: UnaryInst::Uextend, ty: IrType::I32, value: 2 },
        ]
    );
}

#[test]
fn expressions_that_cannot_be_lowered_say_why() {
    let x = || id(9, number(), number());
    assert_eq!(refusal(&x()), "SIA32 identifier has no local or symbolic storage");
    let text = expr(ExprType::Literal(LiteralValue::Str(vec![0])), array(byte(), 1));
    assert_eq!(refusal(&text), "string literal has no translation-unit data object");
    let assign = binary(BinaryOp::Assign, x(), literal(1), number());
    assert_eq!(refusal(&assign), "SIA32 assignment to unmapped Id: symbol=x, lhs=E");
    let address = expr(ExprType::StaticRef(Box::new(literal(1))), pointer(number()));
    assert_eq!(refusal(&address), "SIA32 cannot form address for lvalue E");
    let read = expr(ExprType::Deref(Box::new(x())), number());
    assert_eq!(refusal(&read), "SIA32 symbol address has no translation-unit declaration");
    let member = |base: Expr| expr(ExprType::Member(Box::new(base), 5), number());
    assert_eq!(
        refusal(&member(literal(1))),
        "member access requires a struct or union base"
    );
    assert_eq!(refusal(&member(id(9, pair(), pair()))), "unknown struct member");
    let base = expr(ExprType::Literal(LiteralValue::Int(0)), union());
    assert_eq!(
        refusal(&member(base)),
        "SIA32 member access requires an addressable aggregate: base=E"
    );
    let sizeof = |sized: Type| expr(ExprType::Sizeof(Box::new(sized)), number());
    assert_eq!(refusal(&sizeof(void())), "sizeof requires a complete SIA32 type");
    let open = ty(
        TypeKind::Array(Box::new(void()), ArrayType::Variable(Box::new(literal(2)))),
        0,
        false,
    );
    assert_eq!(refusal(&sizeof(open)), "sizeof VLA element type must be complete");
    let cast = expr(
        ExprType::Cast(Box::new(expr(
            ExprType::Literal(LiteralValue::Int(1)),
            ty(TypeKind::VaList, 4, false),
        ))),
        number(),
    );
    assert_eq!(refusal(&cast), "va_list has no standalone SIA32 scalar representation");
}

#[test]
fn pointer_arithmetic_needs_complete_types() {
    let p = |to: Type| expr(ExprType::Literal(LiteralValue::Int(8)), pointer(to));
    let moved = binary(BinaryOp::Add, p(void()), literal(1), pointer(void()));
    assert_eq!(refusal(&moved), "SIA32 pointer arithmetic requires a complete pointee type");
    let apart = binary(BinaryOp::Sub, p(void()), p(number()), number());
    assert_eq!(refusal(&apart), "SIA32 pointer difference requires a complete pointee type");
    let mixed = binary(BinaryOp::Sub, p(number()), p(byte()), number());
    assert_eq!(refusal(&mixed), "SIA32 pointer difference requires compatible pointee sizes");
    let bytes = binary(BinaryOp::Sub, p(byte()), p(byte()), number());
    assert_eq!(steps(&bytes).unwrap().len(), 3);
    let at = |to: fn() -> Type| {
        let place = ExprType::Deref(Box::new(p(pointer(to()))));
        Box::new(expr(place, pointer(to())))
    };
    let step = expr(ExprType::PostIncrement(at(void), true), pointer(void()));
    assert_eq!(refusal(&step), "SIA32 pointer increment requires a complete pointee type");
    let wide: fn() -> Type = || ty(TypeKind::Struct(Vec::new()), 1 << 63, false);
    let step = expr(ExprType::PostIncrement(at(wide), true), pointer(number()));
    assert_eq!(refusal(&step), "SIA32 pointer increment step does not fit in i64");
}

#[test]
fn an_increment_loads_and_stores_at_one_address() {
    let address = || expr(ExprType::Literal(LiteralValue::Int(64)), pointer(number()));
    let moved = |ctype| {
        Box::new(expr(
            ExprType::Binary(BinaryOp::Add, Box::new(address()), Box::new(literal(1))),
            ctype,
        ))
    };
    let step = expr(ExprType::PostIncrement(moved(byte()), false), byte());
    let ops = steps(&step).unwrap();
    assert_eq!(
        ops[ops.len() - 5..].to_vec(),
        vec![
            Op::Binary { inst: BinaryInst::Iadd, ty: IrType::I32, left: 0, right: 3 },
            Op::Load { ty: IrType::I8, address: 4, offset: 0 },
            Op::Iconst { ty: IrType::I8, value: 1 },
            Op::Binary { inst: BinaryInst::Isub, ty: IrType::I8, left: 5, right: 6 },
            Op::Store { value: 7, address: 4, offset: 0 },
        ]
    );
    let read = Box::new(expr(ExprType::Cast(moved(byte())), number()));
    let ops = steps(&expr(ExprType::PostIncrement(read, true), number())).unwrap();
    assert_eq!(ops[5], Op::Load { ty: IrType::I8, address: 4, offset: 0 });
    let float = || ty(TypeKind::Float, 4, true);
    let ops = steps(&expr(ExprType::PostIncrement(moved(float()), true), float())).unwrap();
    assert_eq!(ops[6], Op::F32Const { bits: 1.0f32.to_bits() });
    assert_eq!(
        ops[7],
        Op::Binary { inst: BinaryInst::Fadd, ty: IrType::F32, left: 5, right: 6 }
    );
    let double = || ty(TypeKind::Double, 8, true);
    let ops = steps(&expr(ExprType::PostIncrement(moved(double()), false), double())).unwrap();
    assert_eq!(ops[6], Op::F64Const { bits: 1.0f64.to_bits() });
    assert_eq!(
        ops[7],
        Op::Binary { inst: BinaryInst::Fsub, ty: IrType::F64, left: 5, right: 6 }
    );
    assert_eq!(
        refusal(&expr(ExprType::PostIncrement(Box::new(literal(1)), true), number())),
        "SIA32 cannot form address for lvalue E"
    );
}

#[test]
fn floating_point_has_four_operators() {
    let half = || {
        expr(
            ExprType::Literal(LiteralValue::Float { double_bits: 0, single_bits: 0 }),
            ty(TypeKind::Double, 8, true),
        )
    };
    let of = |operator| binary(operator, half(), half(), ty(TypeKind::Double, 8, true));
    assert!(steps(&of(BinaryOp::Div)).is_ok());
    assert_eq!(
        refusal(&of(BinaryOp::Mod)),
        "floating-point operator Mod is not part of L12"
    );
    assert_eq!(
        refusal(&of(BinaryOp::Shl)),
        "floating-point operator Shl is not part of L12"
    );
}

#[test]
fn calls_check_their_target_and_arguments() {
    let call = |function: Expr, arguments: Vec<Expr>| {
        expr(ExprType::FuncCall(Box::new(function), arguments), number())
    };
    assert_eq!(
        refusal(&call(literal(1), Vec::new())),
        "SIA32 call target is not a function"
    );
    let wrong = expr(ExprType::Literal(LiteralValue::Int(1)), pointer(number()));
    assert_eq!(
        refusal(&call(wrong, Vec::new())),
        "SIA32 call target pointer does not point to a function"
    );
    let of = |params: Vec<Symbol>, varargs: bool| {
        ty(TypeKind::Function(function_type(number(), params, varargs)), 1, true)
    };
    let direct = id(3, of(Vec::new(), false), of(Vec::new(), false));
    assert_eq!(
        refusal(&call(direct, Vec::new())),
        "SIA32 direct call target `x` has no translation-unit declaration"
    );
    let through = |params: Vec<Symbol>, varargs: bool| {
        expr(ExprType::Literal(LiteralValue::Int(64)), pointer(of(params, varargs)))
    };
    assert_eq!(
        refusal(&call(through(Vec::new(), false), vec![literal(1)])),
        "SIA32 call argument count mismatch"
    );
    assert_eq!(
        refusal(&call(through(vec![symbol(1, "n", number())], true), Vec::new())),
        "SIA32 call argument count mismatch"
    );
    let small = expr(ExprType::Literal(LiteralValue::Char(1)), byte());
    let ops = steps(&call(through(vec![symbol(1, "n", number())], true), vec![literal(2), small]));
    assert_eq!(
        ops.unwrap(),
        vec![
            Op::BeginSignature,
            Op::SignatureParam { ty: IrType::I32 },
            Op::SignatureParam { ty: IrType::I32 },
            Op::SignatureReturn { ty: IrType::I32 },
            Op::ImportSignature,
            Op::Iconst { ty: IrType::I32, value: 2 },
            Op::Iconst { ty: IrType::I8, value: 1 },
            Op::Unary { inst: UnaryInst::Uextend, ty: IrType::I32, value: 6 },
            Op::Iconst { ty: IrType::I32, value: 64 },
            Op::CallArgument { value: 5 },
            Op::CallArgument { value: 7 },
            Op::CallIndirect { signature: 4, callee: 8, result: Some(IrType::I32) },
        ]
    );
}

#[test]
fn statements_outside_their_construct_are_refused() {
    assert_eq!(statement_refusal(StmtType::Break), "break outside a SIA32 loop or switch");
    assert_eq!(statement_refusal(StmtType::Continue), "continue outside a SIA32 loop");
    let empty = || Box::new(stmt(StmtType::Compound(Vec::new())));
    assert_eq!(statement_refusal(StmtType::Case(1, empty())), "case outside a SIA32 switch");
    assert_eq!(statement_refusal(StmtType::Default(empty())), "default outside a SIA32 switch");
}

#[test]
fn functions_that_return_objects_return_through_an_address() {
    let body = |value| vec![ret(value)];
    let make = |value: Option<Expr>| {
        plan_function(&function_type(pair(), Vec::new(), false), &body(value), HERE, &tables())
    };
    let message = |value| make(value).unwrap_err().to_string();
    assert_eq!(message(None), "aggregate-returning function requires a return value");
    assert_eq!(
        message(Some(literal(1))),
        "aggregate return expression must have struct or union type"
    );
    let whole = expr(ExprType::Literal(LiteralValue::Int(32)), pair());
    let plan = make(Some(whole)).unwrap();
    assert_eq!(plan.parameters, vec![IrType::I32]);
    assert_eq!(plan.result_type, None);
    assert_eq!(plan.ops[4], Op::FunctionParam { index: 0, ty: IrType::I32 });
    assert_eq!(plan.ops[7], Op::Store { value: 6, address: 4, offset: 0 });
    assert_eq!(plan.ops[5 + 1 + 16], Op::Return);
}

#[test]
fn local_initializers_must_fit_their_objects() {
    let list = Initializer::InitializerList;
    assert_eq!(
        local_refusal(array(number(), 1), list(vec![constant(1), constant(2)])),
        "too many elements in local array initializer"
    );
    assert_eq!(
        local_refusal(pair(), list(vec![constant(1), constant(2), constant(3)])),
        "too many elements in local struct initializer"
    );
    assert_eq!(
        local_refusal(union(), list(vec![constant(1), constant(2)])),
        "too many elements in local union initializer"
    );
    let text = || {
        let bytes = ExprType::Literal(LiteralValue::Str(b"abc\0".to_vec()));
        scalar(expr(bytes, array(byte(), 4)), literal(0))
    };
    assert_eq!(local_refusal(array(byte(), 3), text()), "string initializer exceeds array");
    assert_eq!(local_refusal(array(byte(), 0), text()), "string initializer exceeds array");
    let ops = local(array(byte(), 4), Some(text())).unwrap();
    assert_eq!(ops[ops.len() - 1], Op::StackStore { value: ops.len() - 2, slot: 0, offset: 3 });
    assert!(local(array(byte(), 9), Some(text())).is_ok());
    let none = ty(TypeKind::Union(Vec::new()), 1, false);
    assert_eq!(
        local_refusal(none, list(vec![constant(1)])),
        "union has no initializable member"
    );
    assert_eq!(
        local_refusal(array(pair(), 1), list(vec![constant(1)])),
        "unsupported array initializer element"
    );
    assert_eq!(
        local_refusal(array(number(), 1), list(vec![list(vec![constant(1), constant(2)])])),
        "scalar aggregate initializer must contain exactly one element"
    );
    assert_eq!(
        local_refusal(array(number(), 1), constant(1)),
        "aggregate local initialization requires an initializer list"
    );
    assert_eq!(
        local_refusal(number(), list(vec![constant(1)])),
        "aggregate local initialization is not supported for SIA32 yet"
    );
    let open = Type {
        size: Err("no size".into()),
        ..ty(TypeKind::Array(Box::new(number()), ArrayType::Unbounded), 0, false)
    };
    assert_eq!(
        local(open, None).unwrap_err().to_string(),
        "unbounded array requires an initializer that determines its size"
    );
    let huge = ty(TypeKind::Struct(Vec::new()), 1 << 32, false);
    assert_eq!(
        local(huge, None).unwrap_err().to_string(),
        "aggregate local is too large for SIA32"
    );
}

#[test]
fn local_lists_are_stored_member_by_member_over_zeros() {
    let fields = vec![Field { id: 0, ctype: byte() }, Field { id: 1, ctype: number() }];
    let padded = Type { align: Ok(4), ..ty(TypeKind::Struct(fields), 8, false) };
    let ops =
        local(padded, Some(Initializer::InitializerList(vec![Initializer::Zero, constant(5)])))
            .unwrap();
    let mut expected = vec![
        Op::CreateStackSlot { size: 8, align_shift: 2 },
        Op::Iconst { ty: IrType::I8, value: 0 },
    ];
    for offset in 0..8 {
        expected.push(Op::StackStore { value: 1, slot: 0, offset });
    }
    expected.push(Op::Iconst { ty: IrType::I32, value: 5 });
    expected.push(Op::StackStore { value: 10, slot: 0, offset: 4 });
    assert_eq!(ops, expected);
}

#[test]
fn arrays_of_variable_length_take_no_initializer() {
    let open = || {
        ty(
            TypeKind::Array(Box::new(number()), ArrayType::Variable(Box::new(literal(3)))),
            0,
            false,
        )
    };
    assert_eq!(
        local_refusal(open(), Initializer::InitializerList(Vec::new())),
        "VLA initialization is not supported"
    );
    assert_eq!(
        local(open(), None).unwrap(),
        vec![
            Op::Iconst { ty: IrType::I32, value: 3 },
            Op::Iconst { ty: IrType::I32, value: 4 },
            Op::Binary { inst: BinaryInst::Imul, ty: IrType::I32, left: 0, right: 1 },
            Op::Iconst { ty: IrType::I32, value: 3 },
            Op::Binary { inst: BinaryInst::Iadd, ty: IrType::I32, left: 2, right: 3 },
            Op::Iconst { ty: IrType::I32, value: 0xffff_fffc },
            Op::Binary { inst: BinaryInst::Band, ty: IrType::I32, left: 4, right: 5 },
            Op::StackAllocDynamic { bytes: 6 },
            Op::DeclareVar { ty: IrType::I32 },
            Op::DefVar { variable: 8, value: 7 },
        ]
    );
}

fn written(ctype: &Type, size: usize, init: &Initializer) -> Result<Vec<u8>, Error> {
    let names = HashMap::new();
    let strings = vec![b"hi\0".to_vec()];
    let mut writer = ObjectWriter {
        bytes: vec![0; size],
        relocations: Vec::new(),
        names: &names,
        strings: &strings,
    };
    writer.write_global_initializer(0, ctype, None, init, HERE)?;
    Ok(writer.bytes)
}

fn global_refusal(ctype: &Type, size: usize, init: &Initializer) -> String {
    written(ctype, size, init).unwrap_err().to_string()
}

#[test]
fn global_constants_are_written_low_byte_first() {
    let short = ty(TypeKind::Short(true), 2, true);
    assert_eq!(written(&short, 2, &constant(0x1234)).unwrap(), vec![0x34, 0x12]);
    assert_eq!(written(&number(), 4, &constant(-2)).unwrap(), vec![0xfe, 0xff, 0xff, 0xff]);
    let big = |value: u64| {
        let folded = expr(ExprType::Literal(LiteralValue::UnsignedInt(value)), number());
        scalar(literal(1), folded)
    };
    assert_eq!(written(&number(), 4, &big(0x8765_4321)).unwrap(), vec![0x21, 0x43, 0x65, 0x87]);
    let character = expr(ExprType::Literal(LiteralValue::Char(65)), byte());
    assert_eq!(
        written(&number(), 4, &scalar(literal(1), character)).unwrap(),
        vec![65, 0, 0, 0]
    );
    let list = Initializer::InitializerList(vec![constant(1), Initializer::Zero, constant(3)]);
    assert_eq!(
        written(&array(number(), 3), 12, &list).unwrap(),
        vec![1, 0, 0, 0, 0, 0, 0, 0, 3, 0, 0, 0]
    );
}

#[test]
fn global_initializers_must_be_constants_that_fit() {
    let list = Initializer::InitializerList;
    let float = expr(
        ExprType::Literal(LiteralValue::Float { double_bits: 1, single_bits: 1 }),
        number(),
    );
    assert_eq!(
        global_refusal(&number(), 4, &scalar(literal(1), float)),
        "floating-point global initialization requires SIA32 float lowering"
    );
    let text = expr(ExprType::Literal(LiteralValue::Str(vec![0])), number());
    assert_eq!(
        global_refusal(&number(), 4, &scalar(literal(1), text)),
        "string scalar initialization requires SIA32 string-data lowering"
    );
    assert_eq!(
        global_refusal(&number(), 4, &scalar(literal(1), id(1, number(), number()))),
        "global scalar initializer is not a link-time constant"
    );
    let zero = Initializer::Scalar(Box::new(ScalarInitializer {
        expression: literal(1),
        folded: Ok(id(1, number(), number())),
        folded_is_zero: true,
    }));
    assert_eq!(written(&number(), 4, &zero).unwrap(), vec![0; 4]);
    let broken = Initializer::Scalar(Box::new(ScalarInitializer {
        expression: literal(1),
        folded: Err(CompileError { location: HERE, message: "division by zero".into() }),
        folded_is_zero: false,
    }));
    let error = written(&number(), 4, &broken).unwrap_err();
    assert!(matches!(&error, Error::Source(errors) if errors.len() == 1));
    assert_eq!(error.to_string(), "division by zero");
    assert_eq!(
        global_refusal(&number(), 3, &constant(1)),
        "global initializer exceeds object size"
    );
    assert_eq!(
        global_refusal(&number(), 4, &list(vec![constant(1), constant(2)])),
        "scalar global initializer list must contain exactly one element"
    );
    assert_eq!(
        global_refusal(&array(number(), 1), 4, &list(vec![constant(1), constant(2)])),
        "too many elements in global array initializer"
    );
    assert_eq!(
        global_refusal(&pair(), 8, &list(vec![constant(1), constant(2), constant(3)])),
        "too many elements in global struct initializer"
    );
    assert_eq!(
        global_refusal(&union(), 4, &list(vec![constant(1), constant(2)])),
        "too many elements in local union initializer"
    );
    assert_eq!(
        global_refusal(&pair(), 8, &constant(1)),
        "aggregate global scalar initialization requires aggregate-copy lowering"
    );
    assert_eq!(
        global_refusal(&void(), 0, &list(Vec::new())),
        "unsupported global aggregate initializer shape"
    );
    assert_eq!(
        global_refusal(&number(), 4, &Initializer::FunctionBody(Vec::new())),
        "function body cannot initialize a global data object"
    );
    let text = expr(ExprType::Literal(LiteralValue::Str(b"abc\0".to_vec())), array(byte(), 4));
    let text = scalar(text, literal(0));
    assert_eq!(written(&array(byte(), 6), 6, &text).unwrap(), b"abc\0\0\0".to_vec());
    assert_eq!(
        global_refusal(&array(byte(), 2), 2, &text),
        "string initializer exceeds array"
    );
}

#[test]
fn pointers_to_symbols_become_relocations() {
    let mut names = HashMap::new();
    names.insert(1, "global".to_string());
    let strings = vec![b"hi\0".to_vec()];
    let mut writer = ObjectWriter {
        bytes: vec![0; 12],
        relocations: Vec::new(),
        names: &names,
        strings: &strings,
    };
    let address = |inner: Expr| expr(ExprType::StaticRef(Box::new(inner)), pointer(number()));
    let place = |writer: &mut ObjectWriter, base: usize, e: Expr| {
        let init = scalar(e, literal(7));
        writer.write_global_initializer(base, &pointer(number()), None, &init, HERE)
    };
    place(&mut writer, 0, address(id(1, number(), number()))).unwrap();
    let member = expr(ExprType::Member(Box::new(id(1, pair(), pair())), 1), number());
    place(&mut writer, 4, address(member)).unwrap();
    let text = expr(ExprType::Literal(LiteralValue::Str(b"hi\0".to_vec())), array(byte(), 3));
    place(&mut writer, 8, text).unwrap();
    let found: Vec<(u32, &str, i64)> = writer
        .relocations
        .iter()
        .map(|r| (r.offset, r.target.as_str(), r.addend))
        .collect();
    assert_eq!(found, vec![(0, "global", 0), (4, "global", 4), (8, "__cosmic_str_0", 0)]);
    assert_eq!(writer.bytes, vec![0; 12]);
    assert_eq!(
        place(&mut writer, 9, address(id(1, number(), number()))).unwrap_err().to_string(),
        "data relocation exceeds global object"
    );
    let text = expr(ExprType::Literal(LiteralValue::Str(b"no\0".to_vec())), array(byte(), 3));
    assert_eq!(
        place(&mut writer, 0, text).unwrap_err().to_string(),
        "string literal missing from translation-unit pool"
    );
    // A symbol without a name is no link-time address: the constant counts.
    place(&mut writer, 0, address(id(2, number(), number()))).unwrap();
    assert_eq!(writer.bytes[..4], [7, 0, 0, 0]);
    let plain = static_address_target(&id(1, number(), number()), &names).unwrap();
    assert!(plain.is_none());
}

#[test]
fn zeros_are_seen_through_conversions() {
    let wrapped = expr(ExprType::Cast(Box::new(literal(0))), pointer(number()));
    assert!(scalar_initializer_is_zero(&wrapped));
    assert!(!scalar_initializer_is_zero(&literal(1)));
    assert_eq!(string_symbol_name(12), "__cosmic_str_12");
}

fn declaration(key: u32, name: &str, ctype: Type, init: Option<Initializer>) -> Declaration {
    Declaration { symbol: symbol(key, name, ctype), init, location: HERE }
}

fn returning(key: u32, name: &str, body: Vec<Stmt>) -> Declaration {
    let ctype = ty(TypeKind::Function(function_type(number(), Vec::new(), false)), 1, true);
    declaration(key, name, ctype, Some(Initializer::FunctionBody(body)))
}

fn compiled(relocations: Vec<BackendRelocation>) -> BackendOutcome {
    BackendOutcome::Compiled { code: vec![0xe0, 0xc0], relocations }
}

fn user(namespace: u32, index: u32) -> BackendRelocation {
    BackendRelocation {
        offset: 6,
        kind: RelocationKind::Abs4,
        target: RelocationTarget::User { namespace, index },
        addend: 3,
    }
}

#[test]
fn relocations_are_resolved_by_namespace_and_number() {
    let text = expr(ExprType::Literal(LiteralValue::Str(b"s\0".to_vec())), array(byte(), 2));
    let declarations = vec![
        declaration(1, "g", number(), None),
        returning(2, "f", vec![stmt(StmtType::Expr(Box::new(text))), ret(Some(literal(0)))]),
    ];
    let plan = plan_unit(&declarations);
    let finish = |relocation| {
        finish_function(&plan.symbols, &plan.functions[0].name, &compiled(vec![relocation]))
    };
    let target = |relocation| {
        let function = finish(relocation).unwrap();
        assert_eq!((function.relocations[0].offset, function.relocations[0].addend), (6, 3));
        function.relocations[0].target.clone()
    };
    assert_eq!(target(user(0, 1)), "f");
    assert_eq!(target(user(1, 0)), "g");
    assert_eq!(target(user(2, 0)), "__cosmic_str_0");
    let message = |relocation| finish(relocation).unwrap_err().to_string();
    assert_eq!(message(user(0, 0)), "SIA32 emitted unknown symbol relocation in f");
    assert_eq!(message(user(1, 1)), "SIA32 emitted unknown symbol relocation in f");
    assert_eq!(message(user(1, 9)), "SIA32 emitted unknown symbol relocation in f");
    assert_eq!(message(user(2, 1)), "SIA32 emitted unknown string relocation in f");
    assert_eq!(
        message(user(3, 0)),
        "SIA32 emitted relocation from unknown namespace 3 in f"
    );
    let other = BackendRelocation { kind: RelocationKind::Other("Abs8".into()), ..user(0, 1) };
    assert_eq!(message(other), "SIA32 emitted unsupported relocation Abs8 in f");
    let other =
        BackendRelocation { target: RelocationTarget::Other("LibCall".into()), ..user(0, 1) };
    assert_eq!(message(other), "SIA32 emitted unsupported relocation target LibCall in f");
    let odd = BackendOutcome::Compiled { code: vec![1], relocations: Vec::new() };
    assert_eq!(
        finish_function(&plan.symbols, &"f".to_string(), &odd).unwrap_err().to_string(),
        "SIA32 emitted invalid instruction bytes for f"
    );
    let failed = BackendOutcome::Failed { reason: "no".into(), input: "text".into() };
    assert_eq!(
        finish_function(&plan.symbols, &"f".to_string(), &failed).unwrap_err().to_string(),
        "SIA32 lowering failed for f: no\nCLIF:\ntext"
    );
}

#[test]
fn declarations_without_storage_are_passed_over() {
    let mut typedef = declaration(1, "t", void(), None);
    typedef.symbol.storage_class = StorageClass::Typedef;
    let mut elsewhere = declaration(2, "e", number(), None);
    elsewhere.symbol.storage_class = StorageClass::Extern;
    let mut prototype = returning(3, "p", Vec::new());
    prototype.init = None;
    let declarations =
        vec![typedef, elsewhere, prototype, returning(4, "f", vec![ret(Some(literal(0)))])];
    let plan = plan_unit(&declarations);
    assert!(plan.data.is_empty());
    assert!(plan.failure.is_none());
    let artifact = finish_unit(plan, &vec![compiled(Vec::new())]).unwrap();
    assert_eq!(artifact.functions.len(), 1);
    assert_eq!(artifact.functions[0].name, "f");
    assert!(artifact.validate().is_ok());
}

#[test]
fn objects_take_their_size_alignment_and_qualifiers() {
    let mut constant_object = declaration(1, "c", array(number(), 2), None);
    constant_object.symbol.is_const = true;
    let open = Type {
        size: Err("cannot take sizeof variable length array".into()),
        align: Ok(4),
        ..ty(TypeKind::Array(Box::new(number()), ArrayType::Unbounded), 0, false)
    };
    let list = Initializer::InitializerList(vec![constant(1), constant(2), constant(3)]);
    let declarations = vec![constant_object, declaration(2, "o", open, Some(list))];
    let plan = plan_unit(&declarations);
    assert_eq!(plan.data[0].bytes, vec![0; 8]);
    assert_eq!(plan.data[0].align, 4);
    assert!(plan.data[0].read_only);
    assert_eq!(plan.data[1].bytes.len(), 12);
    assert_eq!(plan.data[1].bytes[8], 3);
    assert!(!plan.data[1].read_only);
}

#[test]
fn planning_stops_at_the_first_refusal() {
    let incomplete = Type { size: Err("incomplete".into()), ..pair() };
    let declarations = vec![
        returning(1, "f", vec![ret(Some(literal(0)))]),
        declaration(2, "bad", incomplete, None),
        returning(3, "g", vec![ret(Some(literal(0)))]),
    ];
    let plan = plan_unit(&declarations);
    assert_eq!(plan.functions.len(), 1);
    let error = finish_unit(plan, &vec![compiled(Vec::new())]).unwrap_err();
    assert_eq!(error.to_string(), "incomplete");
    let odd = ty(TypeKind::Function(function_type(number(), Vec::new(), false)), 1, true);
    let plan = plan_unit(&vec![declaration(1, "f", odd, Some(constant(1)))]);
    assert_eq!(
        plan.failure.unwrap().to_string(),
        "a function must have a function body"
    );
}

#[test]
fn source_errors_are_shown_one_per_line() {
    let one = |message: &str| CompileError { location: HERE, message: message.into() };
    let error = Error::Source(vec![one("first"), one("second")]);
    assert_eq!(error.to_string(), "first\nsecond");
    assert_eq!(Error::Source(Vec::new()).to_string(), "");
}

#[test]
fn each_statement_has_a_kind() {
    let value = || Box::new(literal(1));
    let body = || Box::new(stmt(StmtType::Break));
    let cases = vec![
        (StmtType::Compound(Vec::new()), "compound"),
        (StmtType::If(value(), body(), None), "if"),
        (StmtType::Do(body(), value()), "do"),
        (StmtType::While(value(), body()), "while"),
        (StmtType::For(body(), None, None, body()), "for"),
        (StmtType::Switch(value(), body()), "switch"),
        (StmtType::Label(1, body()), "label"),
        (StmtType::Case(1, body()), "case"),
        (StmtType::Default(body()), "default"),
        (StmtType::Expr(value()), "expr"),
        (StmtType::Goto(1), "goto"),
        (StmtType::Continue, "continue"),
        (StmtType::Break, "break"),
        (StmtType::Return(None), "return"),
        (StmtType::Decl(Vec::new()), "decl"),
    ];
    for (data, kind) in cases {
        assert_eq!(statement_kind(&stmt(data)), kind);
    }
}

#[test]
fn an_initializer_stays_inside_its_object() {
    let names = HashMap::new();
    let strings = vec![b"hi\0".to_vec()];
    let text = expr(ExprType::Literal(LiteralValue::Str(b"hi\0".to_vec())), array(byte(), 3));
    let fields = vec![
        Field { id: 0, ctype: byte() },
        Field { id: 1, ctype: pointer(byte()) },
    ];
    let holder = Type { align: Ok(4), ..ty(TypeKind::Struct(fields), 8, false) };
    let mut writer = ObjectWriter {
        bytes: vec![0xaa; 16],
        relocations: Vec::new(),
        names: &names,
        strings: &strings,
    };
    let items = Initializer::InitializerList(vec![constant(5), scalar(text, literal(0))]);
    writer.write_global_initializer(4, &holder, None, &items, HERE).unwrap();
    assert_eq!(writer.bytes[..4], [0xaa; 4]);
    assert_eq!(writer.bytes[4], 5);
    assert_eq!(writer.bytes[5..], [0xaa; 11]);
    assert_eq!(writer.relocations.len(), 1);
    assert_eq!(writer.relocations[0].offset, 8);
}

#[test]
fn a_wrapped_lvalue_has_the_type_of_the_object_inside() {
    let place = || {
        let address = expr(ExprType::Literal(LiteralValue::Int(64)), pointer(byte()));
        Box::new(expr(ExprType::Deref(Box::new(address)), byte()))
    };
    let noop = || Box::new(expr(ExprType::Noop(place()), number()));
    let cast = || Box::new(expr(ExprType::Cast(noop()), pointer(pair())));
    for wrapped in [place(), noop(), cast()] {
        let ops = steps(&expr(ExprType::PostIncrement(wrapped, true), number())).unwrap();
        assert_eq!(
            ops,
            vec![
                Op::Iconst { ty: IrType::I32, value: 64 },
                Op::Load { ty: IrType::I8, address: 0, offset: 0 },
                Op::Iconst { ty: IrType::I8, value: 1 },
                Op::Binary { inst: BinaryInst::Iadd, ty: IrType::I8, left: 1, right: 2 },
                Op::Store { value: 3, address: 0, offset: 0 },
            ]
        );
    }
    for wrapped in [place(), noop(), cast()] {
        let assign = binary(BinaryOp::Assign, *wrapped, literal(7), number());
        assert_eq!(
            steps(&assign).unwrap(),
            vec![
                Op::Iconst { ty: IrType::I32, value: 7 },
                Op::Iconst { ty: IrType::I32, value: 64 },
                Op::Unary { inst: UnaryInst::Ireduce, ty: IrType::I8, value: 0 },
                Op::Store { value: 2, address: 1, offset: 0 },
            ]
        );
    }
    let whole = |ctype| {
        let address = expr(ExprType::Literal(LiteralValue::Int(64)), pointer(pair()));
        let object = expr(ExprType::Deref(Box::new(address)), pair());
        Box::new(expr(ExprType::Noop(Box::new(object)), ctype))
    };
    let copy = binary(BinaryOp::Assign, *whole(number()), *whole(pair()), pair());
    assert_eq!(steps(&copy).unwrap().len(), 2 + 2 * 8);
    let step = expr(ExprType::PostIncrement(whole(number()), true), number());
    assert_eq!(
        refusal(&step),
        "struct/union values are address-only on SIA32 and use aggregate ABI/storage lowering"
    );
}
