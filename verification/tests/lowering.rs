use std::collections::HashMap;

use cosmicc::bundle::Artifact;
use cosmicc::error::{Error, Location};
use cosmicc::hir::{
    ArrayType, BinaryOp, ComparisonToken, Declaration, Expr, ExprType, Field, FunctionType,
    Initializer, LiteralValue, ScalarInitializer, Stmt, StmtType, StorageClass, Symbol, Type,
    TypeKind,
};
use cosmicc::ir::{BinaryInst, FloatCC, IntCC, IrType, Op, UnaryInst};
use cosmicc::lower::function::FunctionPlan;
use cosmicc::unit::finish::{
    finish_unit, BackendOutcome, BackendRelocation, RelocationKind, RelocationTarget,
};
use cosmicc::unit::plan::{plan_unit, UnitPlan};
use cosmicc::unit::strings::string_symbol_name;

// A reader for the small C programs of these tests. It builds the typed
// program that the library lowers.

const HERE: Location = Location { file: 0, start: 0, end: 0 };

#[derive(Clone, Debug, PartialEq)]
enum Tok {
    Id(String),
    Num(i64),
    Str(Vec<u8>),
    Punct(&'static str),
    End,
}

const PUNCTUATION: [&str; 42] = [
    "...", "<<=", ">>=", "++", "--", "->", "<<", ">>", "<=", ">=", "==", "!=", "&&", "||", "+=",
    "-=", "*=", "/=", "%=", "&=", "|=", "^=", "(", ")", "{", "}", "[", "]", ";", ",", ":", "?",
    "=", "<", ">", "+", "-", "*", "/", "%", "&", "|",
];
const MORE_PUNCTUATION: [&str; 4] = ["^", "~", "!", "."];

fn lex(source: &str) -> Vec<Tok> {
    let bytes = source.as_bytes();
    let mut tokens = Vec::new();
    let mut i = 0;
    while i < bytes.len() {
        let c = bytes[i];
        if c.is_ascii_whitespace() {
            i += 1;
        } else if c.is_ascii_alphabetic() || c == b'_' {
            let start = i;
            while i < bytes.len() && (bytes[i].is_ascii_alphanumeric() || bytes[i] == b'_') {
                i += 1;
            }
            tokens.push(Tok::Id(source[start..i].to_string()));
        } else if c.is_ascii_digit() {
            let start = i;
            while i < bytes.len() && bytes[i].is_ascii_digit() {
                i += 1;
            }
            tokens.push(Tok::Num(source[start..i].parse().unwrap()));
        } else if c == b'"' {
            let start = i + 1;
            i += 1;
            while bytes[i] != b'"' {
                i += 1;
            }
            let mut text = source[start..i].as_bytes().to_vec();
            text.push(0);
            tokens.push(Tok::Str(text));
            i += 1;
        } else {
            let found = PUNCTUATION
                .iter()
                .chain(MORE_PUNCTUATION.iter())
                .find(|p| source[i..].starts_with(**p));
            let p = found.unwrap_or_else(|| panic!("unexpected character {}", c as char));
            tokens.push(Tok::Punct(p));
            i += p.len();
        }
    }
    tokens.push(Tok::End);
    tokens
}

#[derive(Clone, Debug, PartialEq)]
enum C {
    Void,
    Char(bool),
    Short(bool),
    Int(bool),
    Long(bool),
    Float,
    Double,
    Ptr(Box<C>),
    Array(Box<C>, Len),
    Func(Box<C>, Vec<(String, C)>, bool),
    Record(usize),
}

#[derive(Clone, Debug, PartialEq)]
enum Len {
    Open,
    Fixed(u64),
    Var(Box<E>),
}

#[derive(Clone, Debug, PartialEq)]
enum E {
    Num(i64),
    Str(Vec<u8>),
    Id(String),
    Bin(&'static str, Box<E>, Box<E>),
    Assign(Box<E>, Box<E>),
    Neg(Box<E>),
    Not(Box<E>),
    Flip(Box<E>),
    Deref(Box<E>),
    Addr(Box<E>),
    Post(Box<E>, bool),
    Call(Box<E>, Vec<E>),
    Dot(Box<E>, String),
    Cast(C, Box<E>),
    SizeofE(Box<E>),
    SizeofT(C),
    Cond(Box<E>, Box<E>, Box<E>),
    Comma(Box<E>, Box<E>),
}

#[derive(Clone, Debug)]
enum Init {
    One(E),
    Many(Vec<(Option<Designator>, Init)>),
}

#[derive(Clone, Debug)]
enum Designator {
    Index(u64),
    Member(String),
}

#[derive(Clone, Debug)]
enum S {
    Block(Vec<S>),
    If(E, Box<S>, Option<Box<S>>),
    Do(Box<S>, E),
    While(E, Box<S>),
    For(Box<S>, Option<E>, Option<E>, Box<S>),
    Switch(E, Box<S>),
    Label(String, Box<S>),
    Case(u64, Box<S>),
    Default(Box<S>),
    Expr(E),
    Goto(String),
    Continue,
    Break,
    Return(Option<E>),
    Decl(Vec<(String, C, StorageClass, bool, Option<Init>)>),
}

struct Record {
    fields: Vec<(String, C)>,
    union: bool,
}

struct Parser {
    tokens: Vec<Tok>,
    at: usize,
    records: Vec<Record>,
    tags: HashMap<String, usize>,
}

impl Parser {
    fn peek(&self) -> &Tok {
        &self.tokens[self.at]
    }

    fn ahead(&self, n: usize) -> &Tok {
        &self.tokens[(self.at + n).min(self.tokens.len() - 1)]
    }

    fn is(&self, p: &str) -> bool {
        matches!(self.peek(), Tok::Punct(q) if *q == p)
    }

    fn word(&self, w: &str) -> bool {
        matches!(self.peek(), Tok::Id(q) if q == w)
    }

    fn eat(&mut self, p: &str) -> bool {
        let found = self.is(p) || self.word(p);
        if found {
            self.at += 1;
        }
        found
    }

    fn need(&mut self, p: &str) {
        if !self.eat(p) {
            panic!("expected {} at {:?}", p, self.peek());
        }
    }

    fn name(&mut self) -> String {
        match self.peek().clone() {
            Tok::Id(name) => {
                self.at += 1;
                name
            }
            other => panic!("expected a name at {:?}", other),
        }
    }

    fn starts_type(&self, token: &Tok) -> bool {
        const WORDS: [&str; 14] = [
            "void", "char", "short", "int", "long", "float", "double", "signed", "unsigned",
            "struct", "union", "const", "static", "register",
        ];
        matches!(token, Tok::Id(w) if WORDS.contains(&w.as_str()) || outside(w))
    }

    fn specifiers(&mut self) -> (C, StorageClass, bool) {
        let mut storage = StorageClass::Auto;
        let mut constant = false;
        let mut sign = true;
        let mut signed_word = false;
        let mut base: Option<C> = None;
        loop {
            let word = match self.peek() {
                Tok::Id(w) => w.clone(),
                _ => break,
            };
            match word.as_str() {
                "static" => storage = StorageClass::Static,
                w if outside(w) => storage = StorageClass::Extern,
                "const" => constant = true,
                "register" => {}
                "signed" => signed_word = true,
                "unsigned" => {
                    sign = false;
                    signed_word = true;
                }
                "void" => base = Some(C::Void),
                "char" => base = Some(C::Char(true)),
                "short" => base = Some(C::Short(true)),
                "int" => {
                    if base.is_none() {
                        base = Some(C::Int(true));
                    }
                }
                "long" => base = Some(C::Long(true)),
                "float" => base = Some(C::Float),
                "double" => base = Some(C::Double),
                "struct" | "union" => {
                    self.at += 1;
                    base = Some(self.record(word == "union"));
                    continue;
                }
                _ => break,
            }
            self.at += 1;
        }
        let base = match base {
            Some(base) => base,
            None if signed_word => C::Int(true),
            None => panic!("expected a type at {:?}", self.peek()),
        };
        let base = match base {
            C::Char(_) => C::Char(sign),
            C::Short(_) => C::Short(sign),
            C::Int(_) => C::Int(sign),
            C::Long(_) => C::Long(sign),
            other => other,
        };
        (base, storage, constant)
    }

    fn record(&mut self, union: bool) -> C {
        let tag = self.name();
        if self.eat("{") {
            let id = self.records.len();
            self.records.push(Record { fields: Vec::new(), union });
            self.tags.insert(tag, id);
            let mut fields = Vec::new();
            while !self.eat("}") {
                let (base, _, _) = self.specifiers();
                loop {
                    let (name, ctype) = self.declarator(base.clone());
                    fields.push((name, ctype));
                    if !self.eat(",") {
                        break;
                    }
                }
                self.need(";");
            }
            self.records[id].fields = fields;
            return C::Record(id);
        }
        C::Record(self.tags[&tag])
    }

    fn declarator(&mut self, base: C) -> (String, C) {
        let mut base = base;
        while self.eat("*") {
            while self.eat("const") {}
            base = C::Ptr(Box::new(base));
        }
        if self.is("(") && (matches!(self.ahead(1), Tok::Punct("*"))) {
            // A pointer to a function.
            self.need("(");
            self.need("*");
            let name = match self.peek() {
                Tok::Id(_) => self.name(),
                _ => String::new(),
            };
            self.need(")");
            let (params, varargs) = self.parameters();
            return (name, C::Ptr(Box::new(C::Func(Box::new(base), params, varargs))));
        }
        let name = match self.peek() {
            Tok::Id(_) => self.name(),
            _ => String::new(),
        };
        if self.is("(") {
            let (params, varargs) = self.parameters();
            return (name, C::Func(Box::new(base), params, varargs));
        }
        let mut lengths = Vec::new();
        while self.eat("[") {
            if self.eat("]") {
                lengths.push(Len::Open);
                continue;
            }
            let length = match self.conditional() {
                E::Num(n) => Len::Fixed(n as u64),
                other => Len::Var(Box::new(other)),
            };
            self.need("]");
            lengths.push(length);
        }
        for length in lengths.into_iter().rev() {
            base = C::Array(Box::new(base), length);
        }
        (name, base)
    }

    fn parameters(&mut self) -> (Vec<(String, C)>, bool) {
        self.need("(");
        let mut params = Vec::new();
        let mut varargs = false;
        while !self.eat(")") {
            if self.eat("...") {
                varargs = true;
                continue;
            }
            let (base, _, _) = self.specifiers();
            params.push(self.declarator(base));
            self.eat(",");
        }
        (params, varargs)
    }

    fn initializer(&mut self) -> Init {
        if self.eat("{") {
            let mut items = Vec::new();
            while !self.eat("}") {
                let designator = if self.eat("[") {
                    let index = match self.conditional() {
                        E::Num(n) => n as u64,
                        other => panic!("index {:?}", other),
                    };
                    self.need("]");
                    self.need("=");
                    Some(Designator::Index(index))
                } else if self.eat(".") {
                    let member = self.name();
                    self.need("=");
                    Some(Designator::Member(member))
                } else {
                    None
                };
                items.push((designator, self.initializer()));
                self.eat(",");
            }
            Init::Many(items)
        } else {
            Init::One(self.assignment())
        }
    }

    fn declaration(&mut self) -> S {
        let (base, storage, constant) = self.specifiers();
        let mut declared = Vec::new();
        while !self.eat(";") {
            let (name, ctype) = self.declarator(base.clone());
            let init = if self.eat("=") { Some(self.initializer()) } else { None };
            declared.push((name, ctype, storage, constant, init));
            self.eat(",");
        }
        S::Decl(declared)
    }

    fn statement(&mut self) -> S {
        if self.eat("{") {
            let mut statements = Vec::new();
            while !self.eat("}") {
                statements.push(self.statement());
            }
            return S::Block(statements);
        }
        if self.eat("if") {
            self.need("(");
            let condition = self.expression();
            self.need(")");
            let yes = Box::new(self.statement());
            let no = if self.eat("else") { Some(Box::new(self.statement())) } else { None };
            return S::If(condition, yes, no);
        }
        if self.eat("do") {
            let body = Box::new(self.statement());
            self.need("while");
            self.need("(");
            let condition = self.expression();
            self.need(")");
            self.need(";");
            return S::Do(body, condition);
        }
        if self.eat("while") {
            self.need("(");
            let condition = self.expression();
            self.need(")");
            return S::While(condition, Box::new(self.statement()));
        }
        if self.eat("for") {
            self.need("(");
            let init = if self.starts_type(self.peek()) {
                self.declaration()
            } else if self.eat(";") {
                S::Block(Vec::new())
            } else {
                let init = S::Expr(self.expression());
                self.need(";");
                init
            };
            let condition = if self.is(";") { None } else { Some(self.expression()) };
            self.need(";");
            let step = if self.is(")") { None } else { Some(self.expression()) };
            self.need(")");
            return S::For(Box::new(init), condition, step, Box::new(self.statement()));
        }
        if self.eat("switch") {
            self.need("(");
            let selector = self.expression();
            self.need(")");
            return S::Switch(selector, Box::new(self.statement()));
        }
        if self.eat("case") {
            let value = match self.conditional() {
                E::Num(n) => n as u64,
                other => panic!("case {:?}", other),
            };
            self.need(":");
            return S::Case(value, Box::new(self.statement()));
        }
        if self.eat("default") {
            self.need(":");
            return S::Default(Box::new(self.statement()));
        }
        if self.eat("goto") {
            let label = self.name();
            self.need(";");
            return S::Goto(label);
        }
        if self.eat("continue") {
            self.need(";");
            return S::Continue;
        }
        if self.eat("break") {
            self.need(";");
            return S::Break;
        }
        if self.eat("return") {
            let value = if self.is(";") { None } else { Some(self.expression()) };
            self.need(";");
            return S::Return(value);
        }
        if self.starts_type(self.peek()) {
            return self.declaration();
        }
        if matches!(self.peek(), Tok::Id(_)) && matches!(self.ahead(1), Tok::Punct(":")) {
            let label = self.name();
            self.need(":");
            return S::Label(label, Box::new(self.statement()));
        }
        let expression = self.expression();
        self.need(";");
        S::Expr(expression)
    }

    fn expression(&mut self) -> E {
        let mut left = self.assignment();
        while self.eat(",") {
            left = E::Comma(Box::new(left), Box::new(self.assignment()));
        }
        left
    }

    fn assignment(&mut self) -> E {
        let left = self.conditional();
        if self.eat("=") {
            return E::Assign(Box::new(left), Box::new(self.assignment()));
        }
        for (combined, operator) in [("+=", "+"), ("-=", "-"), ("*=", "*"), ("/=", "/")] {
            if self.eat(combined) {
                let right = self.assignment();
                let value = E::Bin(operator, Box::new(left.clone()), Box::new(right));
                return E::Assign(Box::new(left), Box::new(value));
            }
        }
        left
    }

    fn conditional(&mut self) -> E {
        let condition = self.binary(0);
        if self.eat("?") {
            let yes = self.expression();
            self.need(":");
            let no = self.conditional();
            return E::Cond(Box::new(condition), Box::new(yes), Box::new(no));
        }
        condition
    }

    fn binary(&mut self, level: usize) -> E {
        const LEVELS: [&[&str]; 10] = [
            &["||"],
            &["&&"],
            &["|"],
            &["^"],
            &["&"],
            &["==", "!="],
            &["<", ">", "<=", ">="],
            &["<<", ">>"],
            &["+", "-"],
            &["*", "/", "%"],
        ];
        if level == LEVELS.len() {
            return self.unary();
        }
        let mut left = self.binary(level + 1);
        'next: loop {
            for operator in LEVELS[level] {
                if self.is(operator) {
                    self.at += 1;
                    let right = self.binary(level + 1);
                    left = E::Bin(operator, Box::new(left), Box::new(right));
                    continue 'next;
                }
            }
            return left;
        }
    }

    fn unary(&mut self) -> E {
        if self.eat("-") {
            return E::Neg(Box::new(self.unary()));
        }
        if self.eat("~") {
            return E::Flip(Box::new(self.unary()));
        }
        if self.eat("!") {
            return E::Not(Box::new(self.unary()));
        }
        if self.eat("*") {
            return E::Deref(Box::new(self.unary()));
        }
        if self.eat("&") {
            return E::Addr(Box::new(self.unary()));
        }
        if self.eat("sizeof") {
            if self.is("(") && self.starts_type(self.ahead(1)) {
                self.need("(");
                let ctype = self.written_type();
                self.need(")");
                return E::SizeofT(ctype);
            }
            return E::SizeofE(Box::new(self.unary()));
        }
        if self.is("(") && self.starts_type(self.ahead(1)) {
            self.need("(");
            let ctype = self.written_type();
            self.need(")");
            return E::Cast(ctype, Box::new(self.unary()));
        }
        self.postfix()
    }

    fn written_type(&mut self) -> C {
        let (base, _, _) = self.specifiers();
        self.declarator(base).1
    }

    fn postfix(&mut self) -> E {
        let mut e = match self.peek().clone() {
            Tok::Num(n) => {
                self.at += 1;
                E::Num(n)
            }
            Tok::Str(bytes) => {
                self.at += 1;
                E::Str(bytes)
            }
            Tok::Id(name) => {
                self.at += 1;
                E::Id(name)
            }
            Tok::Punct("(") => {
                self.at += 1;
                let e = self.expression();
                self.need(")");
                e
            }
            other => panic!("unexpected {:?}", other),
        };
        loop {
            if self.eat("(") {
                let mut arguments = Vec::new();
                while !self.eat(")") {
                    arguments.push(self.assignment());
                    self.eat(",");
                }
                e = E::Call(Box::new(e), arguments);
            } else if self.eat("[") {
                let index = self.expression();
                self.need("]");
                e = E::Deref(Box::new(E::Bin("+", Box::new(e), Box::new(index))));
            } else if self.eat(".") {
                e = E::Dot(Box::new(e), self.name());
            } else if self.eat("->") {
                e = E::Dot(Box::new(E::Deref(Box::new(e))), self.name());
            } else if self.eat("++") {
                e = E::Post(Box::new(e), true);
            } else if self.eat("--") {
                e = E::Post(Box::new(e), false);
            } else {
                return e;
            }
        }
    }
}

fn outside(word: &str) -> bool {
    word.len() == 6 && word.starts_with("ext") && word.ends_with("ern")
}

struct Binding {
    key: u32,
    ctype: C,
    storage: StorageClass,
    constant: bool,
}

struct Typer {
    records: Vec<Record>,
    scopes: Vec<HashMap<String, usize>>,
    bindings: Vec<Binding>,
    labels: HashMap<String, u32>,
}

/// A typed expression, and whether its value is an address to read from.
struct T {
    expr: ExprType,
    ctype: C,
    lvalue: bool,
}

fn binary_op(operator: &str) -> BinaryOp {
    match operator {
        "||" => BinaryOp::LogicalOr,
        "&&" => BinaryOp::LogicalAnd,
        "|" => BinaryOp::BitwiseOr,
        "^" => BinaryOp::Xor,
        "&" => BinaryOp::BitwiseAnd,
        "==" => BinaryOp::Compare(ComparisonToken::EqualEqual),
        "!=" => BinaryOp::Compare(ComparisonToken::NotEqual),
        "<" => BinaryOp::Compare(ComparisonToken::Less),
        ">" => BinaryOp::Compare(ComparisonToken::Greater),
        "<=" => BinaryOp::Compare(ComparisonToken::LessEqual),
        ">=" => BinaryOp::Compare(ComparisonToken::GreaterEqual),
        "<<" => BinaryOp::Shl,
        ">>" => BinaryOp::Shr,
        "+" => BinaryOp::Add,
        "-" => BinaryOp::Sub,
        "*" => BinaryOp::Mul,
        "/" => BinaryOp::Div,
        "%" => BinaryOp::Mod,
        other => panic!("operator {}", other),
    }
}

impl Typer {
    fn size(&self, ctype: &C) -> Result<u64, String> {
        Ok(match ctype {
            C::Void => return Err("cannot take sizeof void".into()),
            C::Char(_) => 1,
            C::Short(_) => 2,
            C::Int(_) | C::Long(_) | C::Float | C::Ptr(_) => 4,
            C::Double => 8,
            C::Array(element, Len::Fixed(n)) => self.size(element)? * n,
            C::Array(_, _) => return Err("cannot take sizeof variable length array".into()),
            C::Func(_, _, _) => return Err("cannot take sizeof a function".into()),
            C::Record(id) => {
                let record = &self.records[*id];
                let mut size = 0;
                let mut align = 1;
                for (_, field) in &record.fields {
                    let field_align = self.align(field)?;
                    let field_size = self.size(field)?;
                    align = align.max(field_align);
                    if record.union {
                        size = size.max(field_size);
                    } else {
                        size = size.div_ceil(field_align) * field_align + field_size;
                    }
                }
                size.div_ceil(align) * align
            }
        })
    }

    fn align(&self, ctype: &C) -> Result<u64, String> {
        Ok(match ctype {
            C::Array(element, _) => self.align(element)?,
            C::Record(id) => {
                let mut align = 1;
                for (_, field) in &self.records[*id].fields {
                    align = align.max(self.align(field)?);
                }
                align
            }
            other => self.size(other)?,
        })
    }

    fn hir_type(&mut self, ctype: &C) -> Type {
        let size = self.size(ctype);
        let align = self.align(ctype);
        let kind = match ctype {
            C::Void => TypeKind::Void,
            C::Char(s) => TypeKind::Char(*s),
            C::Short(s) => TypeKind::Short(*s),
            C::Int(s) => TypeKind::Int(*s),
            C::Long(s) => TypeKind::Long(*s),
            C::Float => TypeKind::Float,
            C::Double => TypeKind::Double,
            C::Ptr(pointee) => TypeKind::Pointer(Box::new(self.hir_type(pointee))),
            C::Array(element, length) => {
                let length = match length {
                    Len::Open => ArrayType::Unbounded,
                    Len::Fixed(n) => ArrayType::Fixed(*n),
                    Len::Var(e) => {
                        let bound = self.value(e);
                        ArrayType::Variable(Box::new(self.finish(bound)))
                    }
                };
                TypeKind::Array(Box::new(self.hir_type(element)), length)
            }
            C::Func(result, params, varargs) => {
                let mut symbols = Vec::new();
                for (name, param) in params {
                    let key = self.key_of(name);
                    symbols.push(self.symbol(key, name, param, StorageClass::Auto, false));
                }
                TypeKind::Function(FunctionType {
                    return_type: Box::new(self.hir_type(result)),
                    params: symbols,
                    varargs: *varargs,
                })
            }
            C::Record(id) => {
                let fields: Vec<(usize, C)> =
                    self.records[*id].fields.iter().map(|f| f.1.clone()).enumerate().collect();
                let union = self.records[*id].union;
                let fields = fields
                    .into_iter()
                    .map(|(i, field)| Field { id: i as u32, ctype: self.hir_type(&field) })
                    .collect();
                if union {
                    TypeKind::Union(fields)
                } else {
                    TypeKind::Struct(fields)
                }
            }
        };
        let scalar = matches!(
            ctype,
            C::Char(_) | C::Short(_) | C::Int(_) | C::Long(_) | C::Float | C::Double | C::Ptr(_)
        );
        Type { kind, size, align, scalar, repr: format!("{:?}", ctype) }
    }

    fn key_of(&self, name: &str) -> u32 {
        self.find(name).map_or(0, |index| self.bindings[index].key)
    }

    fn find(&self, name: &str) -> Option<usize> {
        self.scopes.iter().rev().find_map(|scope| scope.get(name).copied())
    }

    fn declare(&mut self, name: &str, ctype: &C, storage: StorageClass, constant: bool) -> u32 {
        if self.scopes.len() == 1 {
            if let Some(index) = self.scopes[0].get(name).copied() {
                self.bindings[index].ctype = ctype.clone();
                return self.bindings[index].key;
            }
        }
        let key = self.bindings.len() as u32 + 1;
        self.scopes.last_mut().unwrap().insert(name.to_string(), self.bindings.len());
        self.bindings.push(Binding { key, ctype: ctype.clone(), storage, constant });
        key
    }

    fn symbol(
        &mut self,
        key: u32,
        name: &str,
        ctype: &C,
        storage_class: StorageClass,
        is_const: bool,
    ) -> Symbol {
        Symbol {
            key,
            name: name.to_string(),
            ctype: Box::new(self.hir_type(ctype)),
            storage_class,
            is_const,
            repr: name.to_string(),
        }
    }

    fn finish(&mut self, t: T) -> Expr {
        let ctype = self.hir_type(&t.ctype);
        Expr { expr: t.expr, ctype, location: HERE, repr: String::new() }
    }

    fn boxed(&mut self, t: T) -> Box<Expr> {
        Box::new(self.finish(t))
    }

    fn number(&self, n: i64) -> T {
        T { expr: ExprType::Literal(LiteralValue::Int(n)), ctype: C::Int(true), lvalue: false }
    }

    fn rvalue(&mut self, t: T) -> T {
        match t.ctype.clone() {
            C::Array(element, _) => {
                T { expr: ExprType::Cast(self.boxed(t)), ctype: C::Ptr(element), lvalue: false }
            }
            C::Func(_, _, _) => {
                let ctype = C::Ptr(Box::new(t.ctype.clone()));
                T { expr: ExprType::StaticRef(self.boxed(t)), ctype, lvalue: false }
            }
            C::Record(_) => T { lvalue: false, ..t },
            _ if matches!(t.expr, ExprType::Deref(_)) => T { lvalue: false, ..t },
            ctype if t.lvalue => T { expr: ExprType::Deref(self.boxed(t)), ctype, lvalue: false },
            _ => t,
        }
    }

    fn value(&mut self, e: &E) -> T {
        let t = self.expr(e);
        self.rvalue(t)
    }

    fn cast(&mut self, t: T, ctype: &C) -> T {
        if t.ctype == *ctype || matches!(ctype, C::Record(_)) {
            return t;
        }
        T { expr: ExprType::Cast(self.boxed(t)), ctype: ctype.clone(), lvalue: false }
    }

    fn promoted(ctype: &C) -> C {
        match ctype {
            C::Char(_) | C::Short(_) => C::Int(true),
            other => other.clone(),
        }
    }

    fn common(left: &C, right: &C) -> C {
        let left = Self::promoted(left);
        let right = Self::promoted(right);
        for wide in [C::Double, C::Float] {
            if left == wide || right == wide {
                return wide;
            }
        }
        for wide in [C::Long(false), C::Long(true), C::Int(false)] {
            if left == wide || right == wide {
                return wide;
            }
        }
        left
    }

    fn expr(&mut self, e: &E) -> T {
        match e {
            E::Num(n) => self.number(*n),
            E::Str(bytes) => T {
                expr: ExprType::Literal(LiteralValue::Str(bytes.clone())),
                ctype: C::Array(Box::new(C::Char(true)), Len::Fixed(bytes.len() as u64)),
                lvalue: false,
            },
            E::Id(name) => {
                let index = self.find(name).unwrap_or_else(|| panic!("unknown {}", name));
                let ctype = self.bindings[index].ctype.clone();
                let (key, storage) = (self.bindings[index].key, self.bindings[index].storage);
                let constant = self.bindings[index].constant;
                let lvalue = !matches!(ctype, C::Func(_, _, _));
                let symbol = self.symbol(key, name, &ctype, storage, constant);
                T { expr: ExprType::Id(symbol), ctype, lvalue }
            }
            E::Deref(pointer) => {
                let pointer = self.value(pointer);
                match pointer.ctype.clone() {
                    C::Ptr(pointee) if matches!(*pointee, C::Func(_, _, _)) => pointer,
                    C::Ptr(pointee) => {
                        let expr = ExprType::Deref(self.boxed(pointer));
                        T { expr, ctype: *pointee, lvalue: true }
                    }
                    other => panic!("dereference of {:?}", other),
                }
            }
            E::Addr(inner) => {
                let inner = self.expr(inner);
                let ctype = C::Ptr(Box::new(inner.ctype.clone()));
                T { expr: ExprType::StaticRef(self.boxed(inner)), ctype, lvalue: false }
            }
            E::Dot(base, member) => {
                let base = self.expr(base);
                let id = match base.ctype {
                    C::Record(id) => id,
                    ref other => panic!("member of {:?}", other),
                };
                let position =
                    self.records[id].fields.iter().position(|f| f.0 == *member).unwrap();
                let ctype = self.records[id].fields[position].1.clone();
                let expr = ExprType::Member(self.boxed(base), position as u32);
                T { expr, ctype, lvalue: true }
            }
            E::Assign(left, right) => {
                let left = self.expr(left);
                let right = self.value(right);
                let right = self.cast(right, &left.ctype);
                let ctype = left.ctype.clone();
                let (left, right) = (self.boxed(left), self.boxed(right));
                T { expr: ExprType::Binary(BinaryOp::Assign, left, right), ctype, lvalue: false }
            }
            E::Neg(inner) => {
                let inner = self.value(inner);
                let ctype = Self::promoted(&inner.ctype);
                let inner = self.cast(inner, &ctype);
                T { expr: ExprType::Negate(self.boxed(inner)), ctype, lvalue: false }
            }
            E::Flip(inner) => {
                let inner = self.value(inner);
                let ctype = Self::promoted(&inner.ctype);
                let inner = self.cast(inner, &ctype);
                T { expr: ExprType::BitwiseNot(self.boxed(inner)), ctype, lvalue: false }
            }
            E::Not(inner) => {
                let inner = self.value(inner);
                let zero = self.number(0);
                let zero = self.cast(zero, &inner.ctype.clone());
                let (left, right) = (self.boxed(inner), self.boxed(zero));
                T {
                    expr: ExprType::Binary(binary_op("=="), left, right),
                    ctype: C::Int(true),
                    lvalue: false,
                }
            }
            E::Post(inner, increment) => {
                let inner = self.expr(inner);
                let ctype = inner.ctype.clone();
                let expr = ExprType::PostIncrement(self.boxed(inner), *increment);
                T { expr, ctype, lvalue: false }
            }
            E::Call(function, arguments) => self.call(function, arguments),
            E::Cast(ctype, inner) => {
                let inner = self.value(inner);
                self.cast(inner, ctype)
            }
            E::SizeofT(ctype) => {
                let sized = Box::new(self.hir_type(ctype));
                T { expr: ExprType::Sizeof(sized), ctype: C::Long(false), lvalue: false }
            }
            E::SizeofE(inner) => {
                let inner = self.expr(inner);
                let sized = Box::new(self.hir_type(&inner.ctype));
                T { expr: ExprType::Sizeof(sized), ctype: C::Long(false), lvalue: false }
            }
            E::Cond(condition, yes, no) => {
                let condition = self.value(condition);
                let yes = self.value(yes);
                let no = self.value(no);
                let ctype = match yes.ctype {
                    C::Ptr(_) | C::Record(_) => yes.ctype.clone(),
                    _ => Self::common(&yes.ctype, &no.ctype),
                };
                let expr =
                    ExprType::Ternary(self.boxed(condition), self.boxed(yes), self.boxed(no));
                T { expr, ctype, lvalue: false }
            }
            E::Comma(left, right) => {
                let left = self.value(left);
                let right = self.value(right);
                let ctype = right.ctype.clone();
                let expr = ExprType::Comma(self.boxed(left), self.boxed(right));
                T { expr, ctype, lvalue: false }
            }
            E::Bin(operator, left, right) => self.operator(operator, left, right),
        }
    }

    fn operator(&mut self, operator: &str, left: &E, right: &E) -> T {
        let left = self.value(left);
        let right = self.value(right);
        let op = binary_op(operator);
        let pointers =
            (matches!(left.ctype, C::Ptr(_)), matches!(right.ctype, C::Ptr(_)));
        let (left, right, ctype) = match operator {
            "&&" | "||" => (left, right, C::Int(true)),
            "+" | "-" if pointers.0 || pointers.1 => {
                let ctype = if pointers.0 && pointers.1 {
                    C::Long(true)
                } else if pointers.0 {
                    left.ctype.clone()
                } else {
                    right.ctype.clone()
                };
                (left, right, ctype)
            }
            "<<" | ">>" => {
                let ctype = Self::promoted(&left.ctype);
                (self.cast(left, &ctype), right, ctype)
            }
            "==" | "!=" | "<" | ">" | "<=" | ">=" => {
                let common = if pointers.0 {
                    left.ctype.clone()
                } else if pointers.1 {
                    right.ctype.clone()
                } else {
                    Self::common(&left.ctype, &right.ctype)
                };
                (self.cast(left, &common), self.cast(right, &common), C::Int(true))
            }
            _ => {
                let common = Self::common(&left.ctype, &right.ctype);
                (self.cast(left, &common), self.cast(right, &common), common)
            }
        };
        let expr = ExprType::Binary(op, self.boxed(left), self.boxed(right));
        T { expr, ctype, lvalue: false }
    }

    fn call(&mut self, function: &E, arguments: &[E]) -> T {
        let mut function = self.expr(function);
        if function.lvalue {
            function = self.rvalue(function);
        }
        let (result, params) = match &function.ctype {
            C::Func(result, params, _) => (result.as_ref().clone(), params.clone()),
            C::Ptr(pointee) => match pointee.as_ref() {
                C::Func(result, params, _) => (result.as_ref().clone(), params.clone()),
                other => panic!("call of {:?}", other),
            },
            other => panic!("call of {:?}", other),
        };
        let mut values = Vec::new();
        for (index, argument) in arguments.iter().enumerate() {
            let value = self.value(argument);
            let value = match params.get(index) {
                Some((_, param)) => self.cast(value, param),
                None => value,
            };
            values.push(self.finish(value));
        }
        let expr = ExprType::FuncCall(self.boxed(function), values);
        T { expr, ctype: result, lvalue: false }
    }

    fn constant(e: &E) -> Option<i64> {
        Some(match e {
            E::Num(n) => *n,
            E::Neg(inner) => -Self::constant(inner)?,
            E::Cast(_, inner) => Self::constant(inner)?,
            E::Bin("+", left, right) => Self::constant(left)? + Self::constant(right)?,
            E::Bin("-", left, right) => Self::constant(left)? - Self::constant(right)?,
            E::Bin("*", left, right) => Self::constant(left)? * Self::constant(right)?,
            _ => return None,
        })
    }

    fn scalar(&mut self, e: &E, ctype: &C) -> Initializer {
        let typed = |typer: &mut Typer| {
            let value = if matches!((e, ctype), (E::Str(_), C::Array(_, _))) {
                typer.expr(e)
            } else {
                let value = typer.value(e);
                typer.cast(value, ctype)
            };
            typer.finish(value)
        };
        let expression = typed(self);
        let folded = match Self::constant(e) {
            Some(n) => {
                let number = T { ctype: ctype.clone(), ..self.number(n) };
                self.finish(number)
            }
            None => typed(self),
        };
        Initializer::Scalar(Box::new(ScalarInitializer {
            expression,
            folded: Ok(folded),
            folded_is_zero: Self::constant(e) == Some(0),
        }))
    }

    fn parts(&self, ctype: &C) -> Option<Vec<C>> {
        match ctype {
            C::Array(element, Len::Fixed(n)) => Some(vec![element.as_ref().clone(); *n as usize]),
            C::Record(id) => {
                let fields = self.records[*id].fields.iter().map(|f| f.1.clone());
                Some(if self.records[*id].union {
                    fields.take(1).collect()
                } else {
                    fields.collect()
                })
            }
            _ => None,
        }
    }

    /// An initializer of the type from the items, from `at` on.
    fn take(
        &mut self,
        ctype: &C,
        items: &[(Option<Designator>, Init)],
        at: &mut usize,
    ) -> Initializer {
        match &items[*at].1 {
            Init::Many(_) => {
                let init = items[*at].1.clone();
                *at += 1;
                self.initializer(ctype, &init)
            }
            Init::One(e) => {
                let text = matches!((e, ctype), (E::Str(_), C::Array(_, _)));
                let whole = matches!(ctype, C::Record(_)) && self.is_record(e);
                match self.parts(ctype) {
                    Some(parts) if !text && !whole => {
                        let mut list = Vec::new();
                        for part in parts {
                            if *at < items.len() {
                                list.push(self.take(&part, items, at));
                            }
                        }
                        Initializer::InitializerList(list)
                    }
                    _ => {
                        let e = e.clone();
                        *at += 1;
                        self.scalar(&e, ctype)
                    }
                }
            }
        }
    }

    fn is_record(&mut self, e: &E) -> bool {
        matches!(self.expr(e).ctype, C::Record(_))
    }

    fn initializer(&mut self, ctype: &C, init: &Init) -> Initializer {
        let items = match init {
            Init::One(e) => return self.scalar(e, ctype),
            Init::Many(items) => items,
        };
        let part = |typer: &Typer, index: usize| match ctype {
            C::Array(element, _) => element.as_ref().clone(),
            C::Record(id) => {
                let fields = &typer.records[*id].fields;
                fields[index.min(fields.len() - 1)].1.clone()
            }
            other => other.clone(),
        };
        let mut list: Vec<Initializer> = Vec::new();
        let mut at = 0;
        let mut next = 0;
        while at < items.len() {
            match &items[at].0 {
                Some(Designator::Index(index)) => next = *index as usize,
                Some(Designator::Member(name)) => {
                    if let C::Record(id) = ctype {
                        next =
                            self.records[*id].fields.iter().position(|f| f.0 == *name).unwrap();
                    }
                }
                None => {}
            }
            while list.len() < next {
                list.push(Initializer::Zero);
            }
            let part = part(self, next);
            let item = self.take(&part, items, &mut at);
            if next < list.len() {
                list[next] = item;
            } else {
                list.push(item);
            }
            next += 1;
        }
        Initializer::InitializerList(list)
    }

    fn declarations(
        &mut self,
        declared: &[(String, C, StorageClass, bool, Option<Init>)],
    ) -> Vec<Declaration> {
        let mut out = Vec::new();
        for (name, ctype, storage, constant, init) in declared {
            let key = self.declare(name, ctype, *storage, *constant);
            let symbol = self.symbol(key, name, ctype, *storage, *constant);
            let init = init.as_ref().map(|init| self.initializer(ctype, init));
            out.push(Declaration { symbol, init, location: HERE });
        }
        out
    }

    fn label(&mut self, name: &str) -> u32 {
        let next = self.labels.len() as u32;
        *self.labels.entry(name.to_string()).or_insert(next)
    }

    fn boxed_value(&mut self, e: &E) -> Box<Expr> {
        let value = self.value(e);
        self.boxed(value)
    }

    fn statement(&mut self, statement: &S) -> Stmt {
        let data = match statement {
            S::Block(statements) => {
                self.scopes.push(HashMap::new());
                let statements = statements.iter().map(|s| self.statement(s)).collect();
                self.scopes.pop();
                StmtType::Compound(statements)
            }
            S::If(condition, yes, no) => {
                let condition = self.boxed_value(condition);
                let yes = Box::new(self.statement(yes));
                let no = no.as_ref().map(|no| Box::new(self.statement(no)));
                StmtType::If(condition, yes, no)
            }
            S::Do(body, condition) => {
                let body = Box::new(self.statement(body));
                StmtType::Do(body, self.boxed_value(condition))
            }
            S::While(condition, body) => {
                let condition = self.boxed_value(condition);
                StmtType::While(condition, Box::new(self.statement(body)))
            }
            S::For(init, condition, step, body) => {
                self.scopes.push(HashMap::new());
                let init = Box::new(self.statement(init));
                let condition = condition.as_ref().map(|e| self.boxed_value(e));
                let step = step.as_ref().map(|e| self.boxed_value(e));
                let body = Box::new(self.statement(body));
                self.scopes.pop();
                StmtType::For(init, condition, step, body)
            }
            S::Switch(selector, body) => {
                let selector = self.boxed_value(selector);
                StmtType::Switch(selector, Box::new(self.statement(body)))
            }
            S::Label(name, inner) => {
                let label = self.label(name);
                StmtType::Label(label, Box::new(self.statement(inner)))
            }
            S::Case(value, inner) => StmtType::Case(*value, Box::new(self.statement(inner))),
            S::Default(inner) => StmtType::Default(Box::new(self.statement(inner))),
            S::Expr(e) => StmtType::Expr(self.boxed_value(e)),
            S::Goto(name) => StmtType::Goto(self.label(name)),
            S::Continue => StmtType::Continue,
            S::Break => StmtType::Break,
            S::Return(value) => StmtType::Return(value.as_ref().map(|e| self.boxed_value(e))),
            S::Decl(declared) => StmtType::Decl(self.declarations(declared)),
        };
        Stmt { data, location: HERE }
    }
}

fn program(source: &str) -> Vec<Declaration> {
    let mut parser = Parser {
        tokens: lex(source),
        at: 0,
        records: Vec::new(),
        tags: HashMap::new(),
    };
    let mut items: Vec<(Vec<(String, C, StorageClass, bool, Option<Init>)>, Option<S>)> =
        Vec::new();
    while *parser.peek() != Tok::End {
        let (base, storage, constant) = parser.specifiers();
        if parser.eat(";") {
            continue;
        }
        let (name, ctype) = parser.declarator(base.clone());
        if parser.is("{") {
            let body = parser.statement();
            items.push((vec![(name, ctype, storage, constant, None)], Some(body)));
            continue;
        }
        let mut declared = Vec::new();
        let init = if parser.eat("=") { Some(parser.initializer()) } else { None };
        declared.push((name, ctype, storage, constant, init));
        while parser.eat(",") {
            let (name, ctype) = parser.declarator(base.clone());
            let init = if parser.eat("=") { Some(parser.initializer()) } else { None };
            declared.push((name, ctype, storage, constant, init));
        }
        parser.need(";");
        items.push((declared, None));
    }
    let mut typer = Typer {
        records: parser.records,
        scopes: vec![HashMap::new()],
        bindings: Vec::new(),
        labels: HashMap::new(),
    };
    let mut declarations = Vec::new();
    for (declared, body) in items {
        match body {
            None => declarations.extend(typer.declarations(&declared)),
            Some(body) => {
                let (name, ctype, storage, constant, _) = &declared[0];
                let key = typer.declare(name, ctype, *storage, *constant);
                typer.scopes.push(HashMap::new());
                typer.labels.clear();
                if let C::Func(_, params, _) = ctype {
                    for (param, param_type) in params {
                        if !param.is_empty() {
                            typer.declare(param, param_type, StorageClass::Auto, false);
                        }
                    }
                }
                let symbol = typer.symbol(key, name, ctype, *storage, *constant);
                let statements = match body {
                    S::Block(statements) => {
                        statements.iter().map(|s| typer.statement(s)).collect()
                    }
                    other => panic!("body {:?}", other),
                };
                typer.scopes.pop();
                declarations.push(Declaration {
                    symbol,
                    init: Some(Initializer::FunctionBody(statements)),
                    location: HERE,
                });
            }
        }
    }
    declarations
}

// A stand-in for the code generator: two bytes for each step, a relocation for
// each symbol, and a refusal of floating point.

fn machine_type(ty: IrType) -> &'static str {
    match ty {
        IrType::I8 => "i8",
        IrType::I16 => "i16",
        IrType::I32 => "i32",
        IrType::F32 => "f32",
        IrType::F64 => "f64",
    }
}

fn signature_text(parameters: &[IrType], result: Option<IrType>) -> String {
    let parameters =
        parameters.iter().map(|ty| machine_type(*ty)).collect::<Vec<_>>().join(", ");
    match result {
        Some(ty) => format!("({}) -> {}", parameters, machine_type(ty)),
        None => format!("({})", parameters),
    }
}

fn step_text(op: &Op) -> String {
    match op {
        Op::Binary { inst, .. } => match inst {
            BinaryInst::Fadd => "fadd".into(),
            BinaryInst::Fsub => "fsub".into(),
            BinaryInst::Fmul => "fmul".into(),
            BinaryInst::Fdiv => "fdiv".into(),
            other => format!("{:?}", other),
        },
        Op::Unary { inst, .. } => match inst {
            UnaryInst::Fneg => "fneg".into(),
            UnaryInst::Fpromote => "fpromote".into(),
            UnaryInst::Fdemote => "fdemote".into(),
            UnaryInst::FcvtToSintSat => "fcvt_to_sint_sat".into(),
            UnaryInst::FcvtToUintSat => "fcvt_to_uint_sat".into(),
            UnaryInst::FcvtFromSint => "fcvt_from_sint".into(),
            UnaryInst::FcvtFromUint => "fcvt_from_uint".into(),
            other => format!("{:?}", other),
        },
        Op::CompareFloat { condition, .. } => match condition {
            FloatCC::LessThan => "fcmp lt".into(),
            FloatCC::GreaterThan => "fcmp gt".into(),
            FloatCC::Equal => "fcmp eq".into(),
            FloatCC::NotEqual => "fcmp ne".into(),
            FloatCC::LessThanOrEqual => "fcmp le".into(),
            FloatCC::GreaterThanOrEqual => "fcmp ge".into(),
        },
        other => format!("{:?}", other),
    }
}

fn plan_text(plan: &FunctionPlan) -> String {
    let mut text = signature_text(&plan.parameters, plan.result_type);
    let mut parameters = Vec::new();
    let mut result = None;
    for op in &plan.ops {
        match op {
            Op::BeginSignature => {
                parameters.clear();
                result = None;
            }
            Op::SignatureParam { ty } => parameters.push(*ty),
            Op::SignatureReturn { ty } => result = Some(*ty),
            Op::ImportSignature => {
                text.push('\n');
                text.push_str(&signature_text(&parameters, result));
            }
            other => {
                text.push('\n');
                text.push_str(&step_text(other));
            }
        }
    }
    text
}

fn generate(plan: &FunctionPlan) -> BackendOutcome {
    let mut floats = plan
        .ops
        .iter()
        .filter(|op| !matches!(op, Op::StackStore { .. } | Op::Store { .. }))
        .map(|op| op.value_type())
        .filter(|ty| ty.is_float());
    if let Some(ty) = floats.next() {
        return BackendOutcome::Failed {
            reason: format!("SSA value type {}", machine_type(ty)),
            input: plan_text(plan),
        };
    }
    let mut relocations = Vec::new();
    for (position, op) in plan.ops.iter().enumerate() {
        let (namespace, index, addend) = match op {
            Op::SymbolValue { namespace, index, addend } => (*namespace, *index, *addend),
            Op::ImportFunction { index, .. } => (0, *index, 0),
            _ => continue,
        };
        relocations.push(BackendRelocation {
            offset: 2 * position as u32,
            kind: RelocationKind::Abs4,
            target: RelocationTarget::User { namespace, index: index as u32 },
            addend,
        });
    }
    BackendOutcome::Compiled { code: vec![0; 2 * plan.ops.len()], relocations }
}

fn compile_source(source: &str) -> Result<Artifact, Error> {
    let plan = plan_unit(&program(source));
    let outcomes = plan.functions.iter().map(|function| generate(&function.plan)).collect();
    finish_unit(plan, &outcomes)
}

// A machine that carries out the steps, to see what they compute.

struct Machine<'a> {
    plan: &'a UnitPlan,
    memory: Vec<u8>,
    objects: HashMap<String, i64>,
}

impl Machine<'_> {
    fn width(ty: IrType) -> usize {
        ty.bits() as usize / 8
    }

    fn wrap(ty: IrType, value: i64) -> i64 {
        match ty {
            IrType::I8 => value as u8 as i64,
            IrType::I16 => value as u16 as i64,
            _ => value as u32 as i64,
        }
    }

    fn signed(ty: IrType, value: i64) -> i64 {
        match ty {
            IrType::I8 => value as i8 as i64,
            IrType::I16 => value as i16 as i64,
            _ => value as i32 as i64,
        }
    }

    fn read(&self, address: i64, ty: IrType) -> i64 {
        let mut value = 0;
        for i in 0..Self::width(ty) {
            value |= (self.memory[address as usize + i] as i64) << (8 * i);
        }
        value
    }

    fn write(&mut self, address: i64, ty: IrType, value: i64) {
        for i in 0..Self::width(ty) {
            self.memory[address as usize + i] = (value >> (8 * i)) as u8;
        }
    }

    fn reserve(&mut self, bytes: usize) -> i64 {
        while self.memory.len() % 8 != 0 {
            self.memory.push(0xaa);
        }
        let address = self.memory.len() as i64;
        self.memory.extend(vec![0xaa; bytes]);
        address
    }

    fn load_data(&mut self) {
        let plan = self.plan;
        for object in &plan.data {
            let address = self.reserve(object.bytes.len());
            for (i, byte) in object.bytes.iter().enumerate() {
                self.memory[address as usize + i] = *byte;
            }
            self.objects.insert(object.name.clone(), address);
        }
        for object in &plan.data {
            for relocation in &object.relocations {
                let place = self.objects[&object.name] + i64::from(relocation.offset);
                let target = self.objects[&relocation.target] + relocation.addend;
                self.write(place, IrType::I32, target);
            }
        }
    }

    fn symbol(&self, namespace: u32, index: usize) -> i64 {
        if namespace == 2 {
            return self.objects[&string_symbol_name(index)];
        }
        let symbols = &self.plan.symbols;
        let (key, _) = symbols.tables.globals.iter().find(|(_, number)| **number == index).unwrap();
        self.objects[&symbols.names[key]]
    }

    fn run(&mut self, index: usize, arguments: &[i64]) -> i64 {
        let function = self.plan.functions.iter().find(|f| f.index == index).unwrap();
        let ops = &function.plan.ops;
        let mut blocks: HashMap<usize, Vec<usize>> = HashMap::new();
        let mut current = 0;
        for (position, op) in ops.iter().enumerate() {
            if let Op::SwitchToBlock { block } = op {
                current = *block;
            } else {
                blocks.entry(current).or_default().push(position);
            }
        }
        let mut values: HashMap<usize, i64> = HashMap::new();
        let mut variables: HashMap<usize, i64> = HashMap::new();
        let mut slots: HashMap<usize, i64> = HashMap::new();
        for (position, op) in ops.iter().enumerate() {
            match op {
                Op::CreateStackSlot { size, .. } => {
                    let address = self.reserve(*size as usize);
                    slots.insert(position, address);
                }
                Op::FunctionParam { index, ty } => {
                    values.insert(position, Self::wrap(*ty, arguments[*index]));
                }
                _ => {}
            }
        }
        let mut passed = Vec::new();
        let mut block = 0;
        'block: loop {
            for position in &blocks[&block] {
                let op = ops[*position];
                let ty = op.value_type();
                let result = match op {
                    Op::DefVar { variable, value } => {
                        assert_eq!(ops[variable], Op::DeclareVar { ty: ops[value].value_type() });
                        let value = values[&value];
                        variables.insert(variable, value);
                        continue;
                    }
                    Op::UseVar { variable, .. } => variables[&variable],
                    Op::StackAddr { slot } => slots[&slot],
                    Op::SymbolValue { namespace, index, addend } => {
                        self.symbol(namespace, index) + addend
                    }
                    Op::StackLoad { ty, slot } => self.read(slots[&slot], ty),
                    Op::StackStore { value, slot, offset } => {
                        let ty = ops[value].value_type();
                        self.write(slots[&slot] + offset as i64, ty, values[&value]);
                        continue;
                    }
                    Op::StackAllocDynamic { bytes } => self.reserve(values[&bytes] as usize),
                    Op::Iconst { ty, value } => Self::wrap(ty, value),
                    Op::Binary { inst, ty, left, right } => {
                        let (l, r) = (values[&left], values[&right]);
                        let (sl, sr) = (Self::signed(ty, l), Self::signed(ty, r));
                        assert_eq!(ops[left].value_type(), ops[right].value_type());
                        Self::wrap(
                            ty,
                            match inst {
                                BinaryInst::Iadd => l + r,
                                BinaryInst::Isub => l - r,
                                BinaryInst::Imul => l.wrapping_mul(r),
                                BinaryInst::Sdiv => sl / sr,
                                BinaryInst::Udiv => l / r,
                                BinaryInst::Srem => sl % sr,
                                BinaryInst::Urem => l % r,
                                BinaryInst::Band => l & r,
                                BinaryInst::Bor => l | r,
                                BinaryInst::Bxor => l ^ r,
                                BinaryInst::Ishl => l << r,
                                BinaryInst::Sshr => sl >> r,
                                BinaryInst::Ushr => l >> r,
                                other => panic!("{:?}", other),
                            },
                        )
                    }
                    Op::Unary { inst, ty, value } => {
                        let from = ops[value].value_type();
                        let value = values[&value];
                        match inst {
                            UnaryInst::Sextend => Self::wrap(ty, Self::signed(from, value)),
                            UnaryInst::Uextend => value,
                            UnaryInst::Ireduce => Self::wrap(ty, value),
                            other => panic!("{:?}", other),
                        }
                    }
                    Op::CompareInt { condition, left, right } => {
                        let from = ops[left].value_type();
                        assert_eq!(from, ops[right].value_type());
                        let (l, r) = (values[&left], values[&right]);
                        let (sl, sr) = (Self::signed(from, l), Self::signed(from, r));
                        i64::from(match condition {
                            IntCC::Equal => l == r,
                            IntCC::NotEqual => l != r,
                            IntCC::SignedLessThan => sl < sr,
                            IntCC::SignedGreaterThan => sl > sr,
                            IntCC::SignedLessThanOrEqual => sl <= sr,
                            IntCC::SignedGreaterThanOrEqual => sl >= sr,
                            IntCC::UnsignedLessThan => l < r,
                            IntCC::UnsignedGreaterThan => l > r,
                            IntCC::UnsignedLessThanOrEqual => l <= r,
                            IntCC::UnsignedGreaterThanOrEqual => l >= r,
                        })
                    }
                    Op::Load { ty, address, offset } => {
                        self.read(values[&address] + offset as i64, ty)
                    }
                    Op::Store { value, address, offset } => {
                        let ty = ops[value].value_type();
                        self.write(values[&address] + offset as i64, ty, values[&value]);
                        continue;
                    }
                    Op::CallArgument { value } => {
                        passed.push(values[&value]);
                        continue;
                    }
                    Op::Call { function, result } => {
                        let arguments = std::mem::take(&mut passed);
                        let target = match ops[function] {
                            Op::ImportFunction { index, .. } => index,
                            other => panic!("{:?}", other),
                        };
                        let value = self.run(target, &arguments);
                        match result {
                            Some(ty) => Self::wrap(ty, value),
                            None => continue,
                        }
                    }
                    Op::Jump { block: next } => {
                        block = next;
                        continue 'block;
                    }
                    Op::JumpWith { block: next, value } => {
                        let parameter = ops
                            .iter()
                            .position(|op| {
                                matches!(op, Op::AppendBlockParam { block, .. } if *block == next)
                            })
                            .unwrap();
                        assert_eq!(ops[parameter].value_type(), ops[value].value_type());
                        values.insert(parameter, values[&value]);
                        block = next;
                        continue 'block;
                    }
                    Op::Branch { condition, yes, no } => {
                        block = if values[&condition] != 0 { yes } else { no };
                        continue 'block;
                    }
                    Op::Return => return 0,
                    Op::ReturnValue { value } => return values[&value],
                    Op::CreateBlock
                    | Op::AppendFunctionParams { .. }
                    | Op::FunctionParam { .. }
                    | Op::AppendBlockParam { .. }
                    | Op::SealBlock { .. }
                    | Op::SealAllBlocks
                    | Op::DeclareVar { .. }
                    | Op::CreateStackSlot { .. }
                    | Op::BeginSignature
                    | Op::SignatureParam { .. }
                    | Op::SignatureReturn { .. }
                    | Op::ImportSignature
                    | Op::ImportFunction { .. } => continue,
                    other => panic!("{:?}", other),
                };
                values.insert(*position, Self::wrap(ty, result));
            }
            panic!("block {} does not end", block);
        }
    }
}

fn run(source: &str, function: &str, arguments: &[i64]) -> i32 {
    let plan = plan_unit(&program(source));
    if let Some(error) = &plan.failure {
        panic!("{}", error.to_string());
    }
    let index = plan.functions.iter().find(|f| f.name == function).unwrap().index;
    let mut machine = Machine { plan: &plan, memory: vec![0; 64], objects: HashMap::new() };
    machine.load_data();
    machine.run(index, arguments) as i32
}

fn assert_compiles(source: &str, functions: usize) -> Artifact {
    let artifact = compile_source(source).unwrap();
    assert_eq!(artifact.functions.len(), functions);
    assert!(artifact.functions.iter().all(|function| !function.code.is_empty()));
    artifact
}

#[test]
fn compiles_global_load_store_and_address_relocations() {
    let artifact = compile_source(
        "int global = 3; int read(void) { return global; } int write(int x) { global = x; return global; } int *address(void) { return &global; }",
    )
    .unwrap();
    assert_eq!(artifact.functions.len(), 3);
    assert!(artifact.functions.iter().all(|function| function
        .relocations
        .iter()
        .any(|reloc| reloc.target == "global")));
}

#[test]
fn pools_string_literals_into_read_only_data() {
    let artifact = compile_source(
        "const char *g = \"hello\"; int f(void) { const char *p = \"hello\"; return p[0]; }",
    )
    .unwrap();
    let strings = artifact
        .data
        .iter()
        .filter(|object| object.name.starts_with("__cosmic_str_"))
        .collect::<Vec<_>>();
    assert_eq!(strings.len(), 1);
    assert_eq!(strings[0].bytes, b"hello\0");
    assert!(strings[0].read_only);
    assert!(artifact
        .functions
        .iter()
        .flat_map(|function| function.relocations.iter())
        .any(|reloc| reloc.target == strings[0].name));
}

#[test]
fn initializes_character_arrays_from_string_literals() {
    let artifact = compile_source(
        "char global[] = \"abc\"; int f(void) { char local[] = \"xy\"; return local[1]; }",
    )
    .unwrap();
    assert!(artifact
        .data
        .iter()
        .any(|object| object.name == "global" && object.bytes == b"abc\0"));
}

#[test]
fn emits_data_relocations_for_global_and_function_addresses() {
    let artifact = compile_source(
        "struct pair { int x; int y; }; int target(void) { return 1; } int global; int *p = &global; int (*fp)(void) = target; struct pair pair; int *member = &pair.y;",
    )
    .unwrap();
    assert_eq!(artifact.data.len(), 5);
    let p = artifact
        .data
        .iter()
        .find(|object| object.name == "p")
        .unwrap();
    let fp = artifact
        .data
        .iter()
        .find(|object| object.name == "fp")
        .unwrap();
    let member = artifact
        .data
        .iter()
        .find(|object| object.name == "member")
        .unwrap();
    assert_eq!(p.relocations[0].target, "global");
    assert_eq!(p.relocations[0].addend, 0);
    assert_eq!(fp.relocations[0].target, "target");
    assert_eq!(member.relocations[0].target, "pair");
    assert_eq!(member.relocations[0].addend, 4);
}

#[test]
fn infers_unbounded_array_sizes_from_initializers() {
    let artifact = compile_source(
        "int global[] = {1, 2, 3}; int f(void) { int local[] = {4, 5}; return local[1]; }",
    )
    .unwrap();
    assert_eq!(artifact.data[0].bytes.len(), 12);
    assert_eq!(artifact.data[0].bytes[8..12], 3i32.to_le_bytes());
    assert_eq!(artifact.functions.len(), 1);
}

#[test]
fn emits_recursive_aggregate_global_initializers() {
    let artifact = compile_source(
        "struct pair { int a; short b; }; union value { int i; short s; }; int a[3] = {1, 2}; struct pair p = {3, 4}; union value u = {5}; int f(void) { return 0; }",
    )
    .unwrap();
    assert_eq!(artifact.data.len(), 3);
    assert_eq!(&artifact.data[0].bytes[..8], &[1, 0, 0, 0, 2, 0, 0, 0]);
    assert_eq!(&artifact.data[1].bytes[..6], &[3, 0, 0, 0, 4, 0]);
    assert_eq!(&artifact.data[2].bytes[..4], &[5, 0, 0, 0]);
}

#[test]
fn emits_scalar_global_initializers() {
    let artifact = compile_source(
        "int a = 1 + 2; unsigned short b = 4660; char c = 65; int *p = 0; int f(void) { return 0; }",
    )
    .unwrap();
    assert_eq!(artifact.data.len(), 4);
    assert_eq!(artifact.data[0].bytes, 3i32.to_le_bytes());
    assert_eq!(artifact.data[1].bytes, 4660u16.to_le_bytes());
    assert_eq!(artifact.data[2].bytes, vec![65]);
    assert_eq!(artifact.data[3].bytes, vec![0; 4]);
}

#[test]
fn lowers_static_locals_into_translation_unit_data() {
    let artifact = compile_source(
        "int f(void) { static int x = 3; x = x + 1; return x; } int g(void) { static int x; return &x != 0; }",
    )
    .unwrap();
    let locals = artifact
        .data
        .iter()
        .filter(|object| object.name.starts_with("__cosmic_static_local_"))
        .collect::<Vec<_>>();
    assert_eq!(locals.len(), 2);
    assert_eq!(locals[0].bytes, 3i32.to_le_bytes());
    assert_ne!(locals[0].name, locals[1].name);
    assert!(artifact
        .functions
        .iter()
        .flat_map(|function| function.relocations.iter())
        .any(|relocation| relocation.target == locals[0].name));
}

#[test]
fn emits_zero_initialized_top_level_objects() {
    let artifact =
        compile_source("int global; static unsigned short hidden; int f(void) { return 0; }")
            .unwrap();
    assert_eq!(artifact.data.len(), 2);
    assert_eq!(artifact.data[0].name, "global");
    assert_eq!(artifact.data[0].bytes, vec![0; 4]);
    assert_eq!(artifact.data[0].align, 4);
    assert_eq!(artifact.data[1].bytes, vec![0; 2]);
    assert!(artifact.data[1].name.contains("hidden"));
}

#[test]
fn compiles_signed_narrow_return_conversion() {
    let artifact = compile_source(
        "int f(signed char x) { return x; } unsigned int g(unsigned char x) { return x; }",
    )
    .unwrap();
    assert_eq!(artifact.functions.len(), 2);
    assert!(artifact
        .functions
        .iter()
        .all(|function| !function.code.is_empty()));
}

#[test]
fn compiles_narrow_function_return_conversion() {
    let artifact = compile_source("short f(int x) { return x; }").unwrap();
    assert_eq!(artifact.functions.len(), 1);
    assert!(!artifact.functions[0].code.is_empty());
}

#[test]
fn compiles_struct_arguments_and_returns_by_value() {
    let artifact = compile_source(
        "struct pair { int a; int b; }; struct pair make(int x) { struct pair p = { x, x + 1 }; return p; } int sum(struct pair p) { p.a = p.a + 10; return p.a + p.b; } int run(void) { return sum(make(3)); }",
    )
    .unwrap();
    assert_eq!(artifact.functions.len(), 3);
    assert!(artifact
        .functions
        .iter()
        .all(|function| !function.code.is_empty()));
}

#[test]
fn compiles_signed_and_unsigned_integer_division_and_remainder() {
    let artifact = compile_source(
        "int signed_ops(int a, int b) { return (a / b) + (a % b); } unsigned int unsigned_ops(unsigned int a, unsigned int b) { return (a / b) + (a % b); }",
    )
    .unwrap();
    assert_eq!(artifact.functions.len(), 2);
    assert!(artifact
        .functions
        .iter()
        .all(|function| !function.code.is_empty()));
}

#[test]
fn compiles_pointer_equality_and_order_comparisons() {
    let artifact = compile_source(
        "int f(int *a, int *b) { return (a == b) + (a != b) + (a < b) + (a <= b) + (a > b) + (a >= b); }",
    )
    .unwrap();
    assert_eq!(artifact.functions.len(), 1);
    assert!(!artifact.functions[0].code.is_empty());
}

#[test]
fn compiles_signed_and_unsigned_right_shift_and_comparisons() {
    let artifact = compile_source(
        "int signed_ops(int a, int b) { return (a >> 1) + (a < b) + (a >= b); } unsigned int unsigned_ops(unsigned int a, unsigned int b) { return (a >> 1) + (a < b) + (a >= b); }",
    )
    .unwrap();
    assert_eq!(artifact.functions.len(), 2);
    assert!(artifact
        .functions
        .iter()
        .all(|function| !function.code.is_empty()));
}

#[test]
fn compiles_comma_expression_with_pointer_result() {
    let artifact = compile_source(
        "struct pair { int x; }; int f(struct pair *a, struct pair *b) { struct pair *p = (a, b); return p->x; }",
    )
    .unwrap();
    assert_eq!(artifact.functions.len(), 1);
    assert!(!artifact.functions[0].code.is_empty());
}

#[test]
fn compiles_comma_expression_integer_conversion() {
    let artifact = compile_source("int f(unsigned char x) { return (x++, x); }").unwrap();
    assert_eq!(artifact.functions.len(), 1);
    assert!(!artifact.functions[0].code.is_empty());
}

#[test]
fn compiles_conditional_operator_with_aggregate_addresses() {
    let artifact = compile_source(
        "struct pair { int x; }; int f(struct pair *a, struct pair *b, int c) { struct pair *p = c ? a : b; return p->x; }",
    )
    .unwrap();
    assert_eq!(artifact.functions.len(), 1);
    assert!(!artifact.functions[0].code.is_empty());
}

#[test]
fn compiles_conditional_operator_with_integer_conversions() {
    let artifact = compile_source(
        "int choose(int flag, short small, int large) { return flag ? small : large; } unsigned int choose_unsigned(int flag, unsigned char small, unsigned int large) { return flag ? small : large; }",
    )
    .unwrap();
    assert_eq!(artifact.functions.len(), 2);
    assert!(artifact
        .functions
        .iter()
        .all(|function| !function.code.is_empty()));
}

#[test]
fn compiles_pointer_and_narrow_integer_conditions() {
    let artifact = compile_source(
        "int f(int *p, unsigned char x) { if (p) { while (x) { x--; if (!x) break; } } return x; }",
    )
    .unwrap();
    assert_eq!(artifact.functions.len(), 1);
    assert!(!artifact.functions[0].code.is_empty());
}

#[test]
fn compiles_for_and_do_while_control_flow() {
    let artifact = compile_source(
        "int loops(int n) { int sum = 0; int i = 0; for (i = 0; i < n; i = i + 1) { if (i == 2) continue; sum = sum + i; } do { sum = sum - 1; } while (sum > n); return sum; }",
    )
    .unwrap();
    assert_eq!(artifact.functions.len(), 1);
    assert!(!artifact.functions[0].code.is_empty());
}

#[test]
fn compiles_do_while_with_loop_carried_local() {
    let artifact = compile_source(
        "int countdown(int n) { int i = n; do { i = i - 1; } while (i > 0); return i; }",
    )
    .unwrap();
    assert_eq!(artifact.functions.len(), 1);
    assert!(!artifact.functions[0].code.is_empty());
}

#[test]
fn compiles_narrow_post_increment_stores_at_declared_width() {
    let artifact = compile_source(
        "int f(unsigned char *p, unsigned short *q) { (*p)++; (*q)--; return *p + *q; }",
    )
    .unwrap();
    assert_eq!(artifact.functions.len(), 1);
    assert!(!artifact.functions[0].code.is_empty());
}

#[test]
fn compiles_scalar_post_increment_and_decrement() {
    let artifact = compile_source(
        "int update(int n) { int i = 0; int old = i++; int prior = i--; return old + prior + i + n; }",
    )
    .unwrap();
    assert_eq!(artifact.functions.len(), 1);
    assert!(!artifact.functions[0].code.is_empty());
}

#[test]
fn compiles_narrow_integer_unary_promotions() {
    let artifact =
        compile_source("int f(signed char x, unsigned short y) { return -x + ~y; }").unwrap();
    assert_eq!(artifact.functions.len(), 1);
    assert!(!artifact.functions[0].code.is_empty());
}

#[test]
fn compiles_integer_negation_without_backend_ineg() {
    let artifact = compile_source("int neg(int x) { return -x; }").unwrap();
    assert_eq!(artifact.functions.len(), 1);
    assert!(!artifact.functions[0].code.is_empty());
}

#[test]
fn function_designator_types_are_pointer_width_on_sia32() {
    let artifact = compile_source(
        "int inc(int x) { return x + 1; } int apply(int (*f)(int), int x) { return f(x); }",
    )
    .unwrap();
    assert_eq!(artifact.functions.len(), 2);
    assert!(artifact
        .functions
        .iter()
        .all(|function| !function.code.is_empty()));
}

#[test]
fn emits_unresolved_relocations_for_external_function_calls() {
    let artifact =
        compile_source("extern int external(int); int f(void) { return external(3); }")
            .unwrap();
    assert_eq!(artifact.functions.len(), 1);
    assert_eq!(artifact.functions[0].relocations.len(), 1);
    assert_eq!(artifact.functions[0].relocations[0].target, "external");
}

#[test]
fn compiles_integer_function_pointer_calls() {
    let artifact = compile_source("int apply(int (*f)(int), int x) { return f(x); }").unwrap();
    assert_eq!(artifact.functions.len(), 1);
    assert!(!artifact.functions[0].code.is_empty());
}

#[test]
fn compiles_integer_variadic_direct_calls_with_default_promotions() {
    let artifact = compile_source(
        "static int pick(int n, ...) { return n; } int run(char c, short s) { return pick(2, c, s); }",
    )
    .unwrap();
    assert_eq!(artifact.functions.len(), 2);
    assert!(artifact
        .functions
        .iter()
        .all(|function| !function.code.is_empty()));
    assert!(artifact
        .functions
        .iter()
        .any(|function| !function.relocations.is_empty()));
}

#[test]
fn rejects_too_few_fixed_arguments_to_variadic_call() {
    let error = compile_source(
        "static int pick(int n, int x, ...) { return n + x; } int run(void) { return pick(1); }",
    )
    .unwrap_err();
    let message = error.to_string();
    assert!(
        message.contains("argument count")
            || message.contains("argument")
            || message.contains("parameter"),
        "unexpected diagnostic: {}",
        message
    );
}

#[test]
fn compiles_mixed_width_integer_binary_operations() {
    let artifact = compile_source(
        "int mixed(char c, unsigned char u, short s, int x) { return (c + x) * (s - u) + (c < x) + (u << 2); }",
    )
    .unwrap();
    assert_eq!(artifact.functions.len(), 1);
    assert!(!artifact.functions[0].code.is_empty());
}

#[test]
fn compiles_mixed_width_bitwise_and_division_operations() {
    let artifact = compile_source(
        "unsigned int mixed(unsigned char c, unsigned short s, unsigned int x) { return ((c | s) ^ x) / (c + 1) + (x % (s + 1)); }",
    )
    .unwrap();
    assert_eq!(artifact.functions.len(), 1);
    assert!(!artifact.functions[0].code.is_empty());
}

#[test]
fn compiles_call_argument_integer_conversions() {
    let artifact = compile_source(
        "static int take(char c, unsigned short s) { return c + s; } int run(int x) { return take(x, x); }",
    )
    .unwrap();
    assert_eq!(artifact.functions.len(), 2);
    assert!(artifact
        .functions
        .iter()
        .all(|function| !function.code.is_empty()));
}

#[test]
fn compiles_address_taken_scalar_local_with_stack_storage() {
    let artifact =
        compile_source("int local(void) { int x = 3; int *p = &x; *p = 7; return x; }")
            .unwrap();
    assert_eq!(artifact.functions.len(), 1);
    assert!(!artifact.functions[0].code.is_empty());
}

#[test]
fn compiles_address_of_local_and_member_through_common_lvalue_path() {
    let artifact = compile_source(
        "struct pair { int x; }; int f(void) { int x = 1; struct pair p; int *a = &x; int *b = &p.x; *b = 4; return *a + *b; }",
    )
    .unwrap();
    assert_eq!(artifact.functions.len(), 1);
    assert!(!artifact.functions[0].code.is_empty());
}

#[test]
fn compiles_address_of_array_element_and_post_increment() {
    let artifact =
        compile_source("int f(int *p, int i) { int *q = &p[i]; p[i]++; return *q; }").unwrap();
    assert_eq!(artifact.functions.len(), 1);
    assert!(!artifact.functions[0].code.is_empty());
}

#[test]
fn compiles_direct_read_after_address_taken_scalar_local() {
    let artifact =
        compile_source("int f(void) { int x = 3; int *p = &x; *p = 9; return x + 1; }")
            .unwrap();
    assert_eq!(artifact.functions.len(), 1);
    assert!(!artifact.functions[0].code.is_empty());
}

#[test]
fn compiles_cast_wrapped_member_and_array_lvalue_assignments() {
    let artifact = compile_source(
        "struct pair { int x; }; int f(struct pair *p, int *a, int i) { p->x = 3; a[i] = p->x; return a[i]; }",
    )
    .unwrap();
    assert_eq!(artifact.functions.len(), 1);
    assert!(!artifact.functions[0].code.is_empty());
}

#[test]
fn compiles_whole_struct_and_union_assignments() {
    let artifact = compile_source(
        "struct pair { int a; short b; }; union value { int i; short s; }; int f(void) { struct pair a = {1, 2}; struct pair b; union value u = {3}; union value v; b = a; v = u; return b.a + b.b + v.i; }",
    )
    .unwrap();
    assert_eq!(artifact.functions.len(), 1);
    assert!(!artifact.functions[0].code.is_empty());
}

#[test]
fn compiles_assignment_to_address_taken_local_hir_deref() {
    let artifact =
        compile_source("int f(void) { int x = 1; int *p = &x; x = 5; return *p; }").unwrap();
    assert_eq!(artifact.functions.len(), 1);
    assert!(!artifact.functions[0].code.is_empty());
}

#[test]
fn compiles_post_increment_of_address_taken_scalar_local() {
    let artifact =
        compile_source("int f(void) { int x = 1; int *p = &x; x++; return *p; }").unwrap();
    assert_eq!(artifact.functions.len(), 1);
    assert!(!artifact.functions[0].code.is_empty());
}

#[test]
fn compiles_pointer_arithmetic_lvalue_assignment() {
    let artifact =
        compile_source("int store(int *p, int i, int x) { p[i] = x; return p[i]; }").unwrap();
    assert_eq!(artifact.functions.len(), 1);
    assert!(!artifact.functions[0].code.is_empty());
}

#[test]
fn compiles_union_local_initializers_and_member_access() {
    let artifact = compile_source(
        "union value { int i; unsigned int u; }; int f(void) { union value v = { 7 }; v.u = 9; return v.i; }",
    )
    .unwrap();
    assert_eq!(artifact.functions.len(), 1);
    assert!(!artifact.functions[0].code.is_empty());
}

#[test]
fn compiles_scalar_struct_and_union_local_initializers() {
    let artifact = compile_source(
        "struct pair { int a; int b; }; union value { int i; short s; }; struct pair make(void) { struct pair p = {1, 2}; return p; } int f(void) { struct pair a = {3, 4}; struct pair b = a; struct pair c = make(); union value u = {5}; union value v = u; return b.a + c.b + v.i; }",
    )
    .unwrap();
    assert_eq!(artifact.functions.len(), 2);
    assert!(artifact
        .functions
        .iter()
        .all(|function| !function.code.is_empty()));
}

#[test]
fn compiles_nested_aggregate_local_initializers() {
    let artifact = compile_source(
        "struct inner { int x; int y; }; struct outer { struct inner i; int a[2]; }; int f(void) { struct outer o = { { 1, 2 }, { 3, 4 } }; return o.i.y + o.a[1]; }",
    )
    .unwrap();
    assert_eq!(artifact.functions.len(), 1);
    assert!(!artifact.functions[0].code.is_empty());
}

#[test]
fn compiles_scalar_array_and_struct_local_initializers() {
    let artifact = compile_source(
        "struct pair { int a; short b; }; int local(void) { int a[3] = { 1, 2, 3 }; struct pair p = { 4, 5 }; return a[0] + a[2] + p.a + p.b; }",
    )
    .unwrap();
    assert_eq!(artifact.functions.len(), 1);
    assert!(!artifact.functions[0].code.is_empty());
}

#[test]
fn compiles_uninitialized_aggregate_local_stack_storage() {
    let artifact = compile_source(
        "struct pair { int a; int b; }; int local(void) { struct pair p; p.a = 3; p.b = 4; return p.a + p.b; }",
    )
    .unwrap();
    assert_eq!(artifact.functions.len(), 1);
    assert!(!artifact.functions[0].code.is_empty());
}

#[test]
fn local_aggregate_ids_lower_as_addresses() {
    let artifact = compile_source(
        "struct pair { int x; }; int f(void) { struct pair p; p.x = 4; return p.x; }",
    )
    .unwrap();
    assert_eq!(artifact.functions.len(), 1);
    assert!(!artifact.functions[0].code.is_empty());
}

#[test]
fn aggregate_address_expressions_do_not_require_scalar_ir_types() {
    let artifact = compile_source(
        "struct pair { int x; int y; }; int f(struct pair *p, int i) { return p[i].x; }",
    )
    .unwrap();
    assert_eq!(artifact.functions.len(), 1);
    assert!(!artifact.functions[0].code.is_empty());
}

#[test]
fn compiles_array_of_struct_member_reads_and_writes() {
    let artifact = compile_source(
        "struct pair { int x; int y; }; int f(struct pair *p, int i) { p[i].y = 7; return p[i].y; }",
    )
    .unwrap();
    assert_eq!(artifact.functions.len(), 1);
    assert!(!artifact.functions[0].code.is_empty());
}

#[test]
fn nested_aggregate_members_remain_address_valued() {
    let artifact = compile_source(
        "struct inner { int x; }; struct outer { struct inner i; }; int f(struct outer *p) { struct inner *q = &p->i; q->x = 6; return q->x; }",
    )
    .unwrap();
    assert_eq!(artifact.functions.len(), 1);
    assert!(!artifact.functions[0].code.is_empty());
}

#[test]
fn compiles_wrapped_and_nested_aggregate_member_addresses() {
    let artifact = compile_source(
        "struct inner { int x; }; struct outer { struct inner i; }; int f(struct outer *p) { p->i.x = 7; return p->i.x; }",
    )
    .unwrap();
    assert_eq!(artifact.functions.len(), 1);
    assert!(!artifact.functions[0].code.is_empty());
}

#[test]
fn compiles_wrapped_member_pointer_dereference_reads() {
    let artifact = compile_source(
        "struct pair { int x; }; int f(struct pair *p) { int *q = &p->x; return *q; }",
    )
    .unwrap();
    assert_eq!(artifact.functions.len(), 1);
    assert!(!artifact.functions[0].code.is_empty());
}

#[test]
fn compiles_member_reads_without_double_dereference() {
    let artifact = compile_source(
        "struct bytes { char c; short s; }; int read(struct bytes *p) { return p->c + p->s; }",
    )
    .unwrap();
    assert_eq!(artifact.functions.len(), 1);
    assert!(!artifact.functions[0].code.is_empty());
}

#[test]
fn compiles_narrow_member_and_pointer_stores() {
    let artifact = compile_source(
        "struct bytes { char c; short s; }; int store(struct bytes *p, char *q, int x) { p->c = x; p->s = x; *q = x; return p->c + *q; }",
    )
    .unwrap();
    assert_eq!(artifact.functions.len(), 1);
    assert!(!artifact.functions[0].code.is_empty());
}

#[test]
fn compiles_narrow_local_assignment_conversions() {
    let artifact =
        compile_source("int narrow(int x) { char c; short s; c = x; s = x; c = s; return c; }")
            .unwrap();
    assert_eq!(artifact.functions.len(), 1);
    assert!(!artifact.functions[0].code.is_empty());
}

#[test]
fn compiles_signed_and_unsigned_widening_assignments() {
    let artifact = compile_source(
        "int widen(unsigned char u, signed char s) { int a; int b; a = u; b = s; return a + b; }",
    )
    .unwrap();
    assert_eq!(artifact.functions.len(), 1);
    assert!(!artifact.functions[0].code.is_empty());
}

#[test]
fn compiles_address_of_dereference_and_member_lvalues() {
    let artifact = compile_source(
        "struct pair { int a; int b; }; int *same(int *p) { return &*p; } int *member(struct pair *p) { return &p->b; }",
    )
    .unwrap();
    assert_eq!(artifact.functions.len(), 2);
    assert!(artifact
        .functions
        .iter()
        .all(|function| !function.code.is_empty()));
}

#[test]
fn compiles_void_direct_call_expression_statement() {
    let artifact = compile_source(
        "static void touch(int *p) { *p = 7; } int run(int *p) { touch(p); return *p; }",
    )
    .unwrap();
    assert_eq!(artifact.functions.len(), 2);
    assert!(artifact
        .functions
        .iter()
        .any(|function| !function.relocations.is_empty()));
}

#[test]
fn compiles_switch_after_terminated_dispatch_through_compound() {
    let artifact = compile_source(
        "int f(int x) { int y = 0; switch (x) { y = 7; case 1: y = 1; break; default: y = 2; } return y; }",
    )
    .unwrap();
    assert_eq!(artifact.functions.len(), 1);
    assert!(!artifact.functions[0].code.is_empty());
}

#[test]
fn compiles_switch_case_default_break_and_fallthrough() {
    let artifact = compile_source(
        "int choose(int x) { int y = 0; switch (x) { case 1: y = 10; break; case 2: y = 20; case 3: y = y + 1; break; default: y = 99; } return y; }",
    )
    .unwrap();
    assert_eq!(artifact.functions.len(), 1);
    assert!(!artifact.functions[0].code.is_empty());
}

#[test]
fn compiles_forward_and_backward_goto_labels() {
    let artifact = compile_source(
        "int forward(int x) { goto done; x = 9; done: return x; } int backward(int x) { again: if (x) { x = x - 1; goto again; } return x; }",
    )
    .unwrap();
    assert_eq!(artifact.functions.len(), 2);
    assert!(artifact
        .functions
        .iter()
        .all(|function| !function.code.is_empty()));
}

#[test]
fn compiles_member_and_array_post_increment_through_lvalue_addressing() {
    let artifact = compile_source(
        "struct pair { int x; }; int f(struct pair *p, int *a, int i) { p->x++; a[i]--; return p->x + a[i]; }",
    )
    .unwrap();
    assert_eq!(artifact.functions.len(), 1);
    assert!(!artifact.functions[0].code.is_empty());
}

#[test]
fn compiles_struct_pointer_subtraction_by_integer() {
    let artifact = compile_source(
        "struct pair { int x; int y; }; struct pair *f(struct pair *a, int n) { return a - n; }",
    )
    .unwrap();
    assert_eq!(artifact.functions.len(), 1);
    assert!(!artifact.functions[0].code.is_empty());
}

#[test]
fn compiles_pointer_post_increment_and_decrement_with_scaled_steps() {
    let artifact = compile_source(
        "int *advance_int(int *p) { p++; return p; } unsigned char *rewind_byte(unsigned char *p) { p--; return p; }",
    )
    .unwrap();
    assert_eq!(artifact.functions.len(), 2);
    assert!(artifact
        .functions
        .iter()
        .all(|function| !function.code.is_empty()));
}

#[test]
fn compiles_uninitialized_local_assigned_before_read() {
    let artifact =
        compile_source("int f(int n) { int value; value = n + 1; return value; }").unwrap();
    assert_eq!(artifact.functions.len(), 1);
    assert!(!artifact.functions[0].code.is_empty());
}

#[test]
fn compiles_narrow_uninitialized_local_assigned_before_read() {
    let artifact =
        compile_source("int f(int n) { unsigned char value; value = n; return value; }")
            .unwrap();
    assert_eq!(artifact.functions.len(), 1);
    assert!(!artifact.functions[0].code.is_empty());
}

#[test]
fn accepts_pointer_to_float_when_no_float_value_is_lowered() {
    let artifact = compile_source(
        "int f(float *value) { return value != 0; } int main(void) { return 0; }",
    )
    .unwrap();
    assert_eq!(artifact.functions.len(), 2);
}

#[test]
fn lowers_f32_arithmetic_to_clif_before_backend_boundary() {
    let error = compile_source("float f(float a, float b) { return -(a + b) * (a - b) / b; }")
        .unwrap_err();
    let message = error.to_string();
    assert!(message.contains("SSA value type f32"), "{}", message);
    for instruction in ["fadd", "fneg", "fsub", "fmul", "fdiv"] {
        assert!(message.contains(instruction), "{}", message);
    }
}

#[test]
fn lowers_f64_arithmetic_to_clif_before_backend_boundary() {
    let error =
        compile_source("double f(double a, double b) { return -(a + b) * (a - b) / b; }")
            .unwrap_err();
    let message = error.to_string();
    assert!(message.contains("SSA value type f64"), "{}", message);
    for instruction in ["fadd", "fneg", "fsub", "fmul", "fdiv"] {
        assert!(message.contains(instruction), "{}", message);
    }
}

#[test]
fn lowers_integer_float_conversions_to_clif_before_backend_boundary() {
    for (source, instruction) in [
        ("float f(int x) { return (float)x; }", "fcvt_from_sint"),
        ("float f(unsigned x) { return (float)x; }", "fcvt_from_uint"),
        ("int f(float x) { return (int)x; }", "fcvt_to_sint_sat"),
        (
            "unsigned f(float x) { return (unsigned)x; }",
            "fcvt_to_uint_sat",
        ),
    ] {
        let error = compile_source(source).unwrap_err();
        let message = error.to_string();
        assert!(message.contains(instruction), "{}", message);
    }
}

#[test]
fn lowers_float_width_conversions_to_clif_before_backend_boundary() {
    for (source, instruction) in [
        ("double f(float x) { return (double)x; }", "fpromote"),
        ("float f(double x) { return (float)x; }", "fdemote"),
    ] {
        let error = compile_source(source).unwrap_err();
        let message = error.to_string();
        assert!(message.contains(instruction), "{}", message);
    }
}

#[test]
fn lowers_f32_comparisons_to_clif_before_backend_boundary() {
    for (operator, instruction) in [
        ("<", "fcmp lt"),
        (">", "fcmp gt"),
        ("==", "fcmp eq"),
        ("!=", "fcmp ne"),
        ("<=", "fcmp le"),
        (">=", "fcmp ge"),
    ] {
        let source = format!("int f(float a, float b) {{ return a {operator} b; }}");
        let error = compile_source(&source).unwrap_err();
        let message = error.to_string();
        assert!(message.contains("SSA value type f32"), "{}", message);
        assert!(message.contains(instruction), "{}", message);
    }
}

#[test]
fn lowers_f64_comparisons_to_clif_before_backend_boundary() {
    let error = compile_source("int f(double a, double b) { return a <= b; }").unwrap_err();
    let message = error.to_string();
    assert!(message.contains("SSA value type f64"), "{}", message);
    assert!(message.contains("fcmp le"), "{}", message);
}

#[test]
fn lowers_fp_parameter_and_return_abi_to_clif() {
    for (source, ty) in [
        ("float id(float x) { return x; }", "f32"),
        ("double id(double x) { return x; }", "f64"),
    ] {
        let error = compile_source(source).unwrap_err();
        let message = error.to_string();
        assert!(message.contains(&format!("({ty}) -> {ty}")), "{}", message);
        assert!(
            message.contains(&format!("SSA value type {ty}")),
            "{}",
            message
        );
    }
}

#[test]
fn lowers_direct_fp_call_abi_to_clif() {
    let error = compile_source(
        "float callee(float x) { return x; } float caller(float x) { return callee(x); }",
    )
    .unwrap_err();
    let message = error.to_string();
    assert!(message.contains("(f32) -> f32"), "{}", message);
}

#[test]
fn lowers_indirect_fp_call_abi_to_clif() {
    let error = compile_source("float caller(float (*fn)(float), float x) { return fn(x); }")
        .unwrap_err();
    let message = error.to_string();
    assert!(message.contains("(f32) -> f32"), "{}", message);
}

#[test]
fn copies_complete_odd_sized_struct_representations() {
    let artifact = compile_source(
        "struct bytes { char a; char b; char c; }; int f(void) { struct bytes a = {1, 2, 3}; struct bytes b; b = a; return b.a + b.b + b.c; }",
    )
    .unwrap();
    assert_eq!(artifact.functions.len(), 1);
    assert!(!artifact.functions[0].code.is_empty());
}

#[test]
fn copies_nested_struct_and_union_values() {
    let artifact = compile_source(
        "union word { int i; unsigned char b[4]; }; struct outer { char tag; union word value; }; int f(void) { struct outer a = {1, {7}}; struct outer b; b = a; return b.tag + b.value.i; }",
    )
    .unwrap();
    assert_eq!(artifact.functions.len(), 1);
    assert!(!artifact.functions[0].code.is_empty());
}

#[test]
fn compiles_struct_return_from_local_and_nested_call() {
    let artifact = compile_source(
        "struct pair { int a; int b; }; struct pair make(int x) { struct pair p = {x, x + 1}; return p; } struct pair relay(int x) { return make(x); } int run(void) { struct pair p = relay(4); return p.a + p.b; }",
    )
    .unwrap();
    assert_eq!(artifact.functions.len(), 3);
    assert!(artifact
        .functions
        .iter()
        .all(|function| !function.code.is_empty()));
}

#[test]
fn compiles_union_return_by_value() {
    let artifact = compile_source(
        "union value { int i; unsigned char bytes[4]; }; union value make(int x) { union value v = {x}; return v; } int run(void) { union value v = make(9); return v.i; }",
    )
    .unwrap();
    assert_eq!(artifact.functions.len(), 2);
    assert!(artifact
        .functions
        .iter()
        .all(|function| !function.code.is_empty()));
}

#[test]
fn compiles_odd_sized_struct_return_by_hidden_address() {
    let artifact = compile_source(
        "struct bytes { char a; char b; char c; }; struct bytes make(void) { struct bytes v = {1, 2, 3}; return v; } int run(void) { struct bytes v = make(); return v.c; }",
    )
    .unwrap();
    assert_eq!(artifact.functions.len(), 2);
    assert!(artifact
        .functions
        .iter()
        .all(|function| !function.code.is_empty()));
}

#[test]
fn aggregate_argument_is_copied_before_callee_mutation() {
    let artifact = compile_source(
        "struct pair { int a; int b; }; int mutate(struct pair p) { p.a = 99; return p.a + p.b; } int run(void) { struct pair p = {1, 2}; int x = mutate(p); return p.a + x; }",
    )
    .unwrap();
    assert_eq!(artifact.functions.len(), 2);
    assert!(artifact
        .functions
        .iter()
        .all(|function| !function.code.is_empty()));
}

#[test]
fn compiles_multiple_struct_and_union_arguments_by_value() {
    let artifact = compile_source(
        "struct pair { int a; int b; }; union value { int i; unsigned char b[4]; }; int sum(struct pair a, union value u, struct pair b) { return a.a + a.b + u.i + b.a + b.b; } int run(void) { struct pair a = {1, 2}; struct pair b = {3, 4}; union value u = {5}; return sum(a, u, b); }",
    )
    .unwrap();
    assert_eq!(artifact.functions.len(), 2);
    assert!(artifact
        .functions
        .iter()
        .all(|function| !function.code.is_empty()));
}

#[test]
fn compiles_odd_sized_struct_argument_by_value() {
    let artifact = compile_source(
        "struct bytes { char a; char b; char c; }; int sum(struct bytes v) { v.a = 7; return v.a + v.b + v.c; } int run(void) { struct bytes v = {1, 2, 3}; return sum(v) + v.a; }",
    )
    .unwrap();
    assert_eq!(artifact.functions.len(), 2);
    assert!(artifact
        .functions
        .iter()
        .all(|function| !function.code.is_empty()));
}

#[test]
fn compiles_brace_elided_nested_struct_array_initializers() {
    let artifact = compile_source(
        "struct inner { int x; int y; }; struct outer { struct inner p; int a[2]; int z; }; int f(void) { struct outer o = {1, 2, 3, 4, 5}; return o.p.y + o.a[1] + o.z; }",
    )
    .unwrap();
    assert_eq!(artifact.functions.len(), 1);
    assert!(!artifact.functions[0].code.is_empty());
}

#[test]
fn compiles_scalar_braces_inside_aggregate_initializers() {
    let artifact = compile_source(
        "struct pair { int a; int b; }; int f(void) { struct pair p = {{1}, {2}}; int a[2] = {{3}, {4}}; return p.a + p.b + a[0] + a[1]; }",
    )
    .unwrap();
    assert_eq!(artifact.functions.len(), 1);
    assert!(!artifact.functions[0].code.is_empty());
}

#[test]
fn compiles_partial_nested_aggregate_initializers_with_zero_fill() {
    let artifact = compile_source(
        "struct inner { int x; int y; }; struct outer { struct inner p; int a[3]; }; int f(void) { struct outer o = {{7}, {8}}; return o.p.x + o.p.y + o.a[0] + o.a[2]; }",
    )
    .unwrap();
    assert_eq!(artifact.functions.len(), 1);
    assert!(!artifact.functions[0].code.is_empty());
}

#[test]
fn compiles_cast_to_void_while_preserving_side_effects() {
    let artifact = compile_source("int f(int *p) { (void)(*p = 7); return *p; }").unwrap();
    assert_eq!(artifact.functions.len(), 1);
    assert!(!artifact.functions[0].code.is_empty());
}

#[test]
fn compiles_integer_pointer_and_function_designator_casts() {
    let artifact = compile_source(
        "int target(int x) { return x + 1; } int f(int *p) { unsigned u = (unsigned)(char)-1; int *q = (int *)(unsigned)p; int (*fn)(int) = (int (*)(int))target; return (int)(unsigned)q + fn((int)u); }",
    )
    .unwrap();
    assert_eq!(artifact.functions.len(), 2);
    assert!(artifact
        .functions
        .iter()
        .all(|function| !function.code.is_empty()));
}

#[test]
fn compiles_equal_width_signedness_and_pointer_casts_without_reencoding() {
    let artifact = compile_source(
        "unsigned f(int x, int *p) { unsigned a = (unsigned)x; unsigned b = (unsigned)p; return a + b; }",
    )
    .unwrap();
    assert_eq!(artifact.functions.len(), 1);
    assert!(!artifact.functions[0].code.is_empty());
}

#[test]
fn compiles_assignment_through_nested_wrapped_lvalues() {
    let artifact = compile_source(
        "struct pair { int x; }; int f(struct pair *p, int *a, int i) { *((int *)&p->x) = 3; *((int *)&a[i]) = 4; return p->x + a[i]; }",
    )
    .unwrap();
    assert_eq!(artifact.functions.len(), 1);
    assert!(!artifact.functions[0].code.is_empty());
}

#[test]
fn compiles_assignment_through_pointer_to_pointer_dereference() {
    let artifact = compile_source("int f(int **pp) { **pp = 9; return **pp; }").unwrap();
    assert_eq!(artifact.functions.len(), 1);
    assert!(!artifact.functions[0].code.is_empty());
}

#[test]
fn compiles_chained_assignment_values() {
    let artifact =
        compile_source("int f(int *p) { int a; int b; a = b = *p = 6; return a + b + *p; }")
            .unwrap();
    assert_eq!(artifact.functions.len(), 1);
    assert!(!artifact.functions[0].code.is_empty());
}

#[test]
fn compiles_post_increment_and_decrement_of_globals() {
    let artifact = compile_source(
        "int g; int f(void) { g = 4; int a = g++; int b = g--; return a + b + g; }",
    )
    .unwrap();
    assert_eq!(artifact.functions.len(), 1);
    assert!(!artifact.functions[0].code.is_empty());
}

#[test]
fn compiles_post_increment_through_nested_pointer_lvalues() {
    let artifact =
        compile_source("int f(int **pp) { int old = (**pp)++; (**pp)--; return old + **pp; }")
            .unwrap();
    assert_eq!(artifact.functions.len(), 1);
    assert!(!artifact.functions[0].code.is_empty());
}

#[test]
fn compiles_post_increment_through_cast_wrapped_member_and_index_lvalues() {
    let artifact = compile_source(
        "struct pair { short x; }; int f(struct pair *p, short *a, int i) { p->x++; a[i]--; return p->x + a[i]; }",
    )
    .unwrap();
    assert_eq!(artifact.functions.len(), 1);
    assert!(!artifact.functions[0].code.is_empty());
}

#[test]
fn compiles_address_of_globals_statics_and_functions() {
    let artifact = compile_source(
        "int g; static int s; int target(int x) { return x; } int f(void) { int *pg = &g; int *ps = &s; int (*fn)(int) = &target; return *pg + *ps + fn(3); }",
    )
    .unwrap();
    assert_eq!(artifact.functions.len(), 2);
    assert!(artifact
        .functions
        .iter()
        .all(|function| !function.code.is_empty()));
}

#[test]
fn compiles_address_of_nested_member_and_array_lvalues() {
    let artifact = compile_source(
        "struct inner { int a[3]; }; struct outer { struct inner i; }; int f(struct outer *p, int n) { int *x = &p->i.a[n]; *x = 7; return p->i.a[n]; }",
    )
    .unwrap();
    assert_eq!(artifact.functions.len(), 1);
    assert!(!artifact.functions[0].code.is_empty());
}

#[test]
fn compiles_address_of_dereference_identity_for_nested_pointers() {
    let artifact = compile_source(
        "int f(int **pp) { int **a = &*pp; int *b = &**pp; return *b + (**a); }",
    )
    .unwrap();
    assert_eq!(artifact.functions.len(), 1);
    assert!(!artifact.functions[0].code.is_empty());
}

#[test]
fn diagnoses_excess_local_aggregate_initializer_elements() {
    for source in [
        "int f(void) { int a[2] = {1, 2, 3}; return a[0]; }",
        "struct pair { int a; int b; }; int f(void) { struct pair p = {1, 2, 3}; return p.a; }",
        "union value { int a; int b; }; int f(void) { union value v = {1, 2}; return v.a; }",
    ] {
        assert!(compile_source(source).is_err(), "{source}");
    }
}

#[test]
fn compiles_deeply_nested_partial_aggregate_initializers() {
    let artifact = compile_source(
        "struct leaf { short x; short y; }; struct node { struct leaf leaves[2]; int tail; }; int f(void) { struct node n = {{{1}, {2, 3}}}; return n.leaves[0].x + n.leaves[0].y + n.leaves[1].y + n.tail; }",
    )
    .unwrap();
    assert_eq!(artifact.functions.len(), 1);
    assert!(!artifact.functions[0].code.is_empty());
}

#[test]
fn compiles_nested_control_flow_statement_matrix() {
    let artifact = compile_source(
        "int f(int x) { int r = 0; start: if (x < 0) return r; for (int i = 0; i < 4; i++) { if (i == 1) continue; while (x > 0) { x--; if (x == 2) break; } do { r++; } while (0); switch (i) { case 0: r += 2; break; case 2: r += 3; default: r += 4; } } if (r == 99) goto start; return r; }",
    )
    .unwrap();
    assert_eq!(artifact.functions.len(), 1);
    assert!(!artifact.functions[0].code.is_empty());
}

#[test]
fn compiles_labels_after_terminators_and_switch_fallthrough() {
    let artifact = compile_source(
        "int f(int x) { if (x) goto done; x = 1; done: switch (x) { case 0: x += 2; case 1: x += 3; default: x += 4; } return x; }",
    )
    .unwrap();
    assert_eq!(artifact.functions.len(), 1);
    assert!(!artifact.functions[0].code.is_empty());
}

#[test]
fn compiles_complete_integer_binary_operator_matrix() {
    let artifact = compile_source(
        "int f(int a, unsigned b, short s) { int r = a * s + a / 3 + a % 3 - s; r = r & a | (int)b ^ s; r = r + (a << 2) + ((int)b >> 1) + (a >> 1); return r + (a < s) + (a > s) + (a == s) + (a != s) + (a <= s) + (a >= s) + (a && b) + (a || b); }",
    )
    .unwrap();
    assert_eq!(artifact.functions.len(), 1);
    assert!(!artifact.functions[0].code.is_empty());
}

#[test]
fn compiles_pointer_binary_operator_matrix() {
    let artifact = compile_source(
        "int f(int *p, int *q, int i) { int *a = p + i; int *b = i + p; int *c = a - i; return *b + *c + (p == q) + (p != q) + (p < q) + (p <= q) + (p > q) + (p >= q); }",
    )
    .unwrap();
    assert_eq!(artifact.functions.len(), 1);
    assert!(!artifact.functions[0].code.is_empty());
}

#[test]
fn compiles_pointer_difference_as_function_result() {
    let artifact = compile_source("long f(int *p, int *q) { return p - q; }").unwrap();
    assert_eq!(artifact.functions.len(), 1);
    assert!(!artifact.functions[0].code.is_empty());
}

#[test]
fn lowers_vla_with_fixed_inner_dimension() {
    let artifact =
        compile_source("int f(int n) { int a[n][3]; a[1][2] = 9; return a[1][2]; }").unwrap();
    assert_eq!(artifact.functions.len(), 1);
    assert!(!artifact.functions[0].code.is_empty());
}

#[test]
fn lowers_sizeof_vla_to_runtime_size() {
    let artifact =
        compile_source("unsigned f(int n) { int a[n + 2]; return sizeof(a); }").unwrap();
    assert_eq!(artifact.functions.len(), 1);
    assert!(!artifact.functions[0].code.is_empty());
}

#[test]
fn lowers_general_runtime_vla_bound_expression() {
    let artifact =
        compile_source("int f(int n) { int a[n + 3]; a[n] = 11; return a[n]; }").unwrap();
    assert_eq!(artifact.functions.len(), 1);
    assert!(!artifact.functions[0].code.is_empty());
}

#[test]
fn lowers_identifier_bound_vla_to_dynamic_stack_allocation() {
    let artifact = compile_source("int f(int n) { int a[n]; a[2] = 7; return a[2]; }").unwrap();
    assert_eq!(artifact.functions.len(), 1);
    assert!(!artifact.functions[0].code.is_empty());
}

#[test]
fn lowers_local_designated_initializers_to_sia32() {
    let artifact = compile_source(
        "struct s { int a; int b; int c; }; int f(void) { int a[5] = { [2] = 7, 8 }; struct s v = { .b = 4, 5 }; return a[0] + a[2] + a[3] + v.a + v.b + v.c; }",
    )
    .unwrap();
    assert_eq!(artifact.functions.len(), 1);
    assert!(!artifact.functions[0].code.is_empty());
}

#[test]
fn lowers_global_designated_initializers_to_data() {
    let artifact = compile_source(
        "int a[5] = { [2] = 7, 8 }; struct s { int a; int b; int c; }; struct s v = { .b = 4, 5 }; int f(void) { return a[2] + v.b; }",
    )
    .unwrap();
    let array = artifact
        .data
        .iter()
        .find(|object| object.name == "a")
        .unwrap();
    assert_eq!(&array.bytes[0..8], &[0; 8]);
    assert_eq!(&array.bytes[8..12], &7i32.to_le_bytes());
    assert_eq!(&array.bytes[12..16], &8i32.to_le_bytes());
    let value = artifact
        .data
        .iter()
        .find(|object| object.name == "v")
        .unwrap();
    assert_eq!(&value.bytes[0..4], &[0; 4]);
    assert_eq!(&value.bytes[4..8], &4i32.to_le_bytes());
    assert_eq!(&value.bytes[8..12], &5i32.to_le_bytes());
}

#[test]
fn lowered_arithmetic_computes() {
    let source = "int f(int x) { return (x << 2) + 3; } int g(int a, int b) { return a / b + a % b; } unsigned h(unsigned a, unsigned b) { return a / b; } int s(int a) { return a >> 1; } unsigned t(unsigned a) { return a >> 1; }";
    assert_eq!(run(source, "f", &[4]), 19);
    assert_eq!(run(source, "g", &[-7, 2]), -4);
    assert_eq!(run(source, "h", &[0xffff_fffe, 2]), 0x7fff_ffff);
    assert_eq!(run(source, "s", &[-4]), -2);
    assert_eq!(run(source, "t", &[0xffff_fffc]), 0x7fff_fffe);
}

#[test]
fn lowered_comparisons_follow_signedness() {
    let source = "int s(int a, int b) { return a < b; } int u(unsigned a, unsigned b) { return a < b; } int p(int *a, int *b) { return a < b; }";
    assert_eq!(run(source, "s", &[-1, 1]), 1);
    assert_eq!(run(source, "u", &[0xffff_ffff, 1]), 0);
    assert_eq!(run(source, "p", &[4, 8]), 1);
}

#[test]
fn lowered_conversions_follow_signedness() {
    let source = "int f(signed char x) { return x; } unsigned g(unsigned char x) { return x; } int h(int x) { char c; short s; c = x; s = x; c = s; return c; }";
    assert_eq!(run(source, "f", &[0xff]), -1);
    assert_eq!(run(source, "g", &[0xff]), 255);
    assert_eq!(run(source, "h", &[0x1_0041]), 0x41);
}

#[test]
fn lowered_loops_run() {
    let source = "int loops(int n) { int sum = 0; int i = 0; for (i = 0; i < n; i = i + 1) { if (i == 2) continue; sum = sum + i; } do { sum = sum - 1; } while (sum > n); return sum; }";
    assert_eq!(run(source, "loops", &[5]), 5);
    let source = "int f(int n) { int i = 0; while (1) { i++; if (i == n) break; } return i; }";
    assert_eq!(run(source, "f", &[7]), 7);
}

#[test]
fn lowered_switches_select_and_fall_through() {
    let source = "int choose(int x) { int y = 0; switch (x) { case 1: y = 10; break; case 2: y = 20; case 3: y = y + 1; break; default: y = 99; } return y; }";
    assert_eq!(run(source, "choose", &[1]), 10);
    assert_eq!(run(source, "choose", &[2]), 21);
    assert_eq!(run(source, "choose", &[3]), 1);
    assert_eq!(run(source, "choose", &[4]), 99);
    let source = "int f(int x) { int y = 5; switch (x) { case 1: y = 1; } return y; }";
    assert_eq!(run(source, "f", &[1]), 1);
    assert_eq!(run(source, "f", &[2]), 5);
}

#[test]
fn lowered_switch_skips_statements_before_its_labels() {
    let source = "int f(int x) { int y = 0; switch (x) { y = 7; case 1: y = 1; break; default: y = 2; } return y; }";
    assert_eq!(run(source, "f", &[1]), 1);
    assert_eq!(run(source, "f", &[5]), 2);
}

#[test]
fn lowered_gotos_jump() {
    let source = "int forward(int x) { goto done; x = 9; done: return x; } int backward(int x) { again: if (x) { x = x - 1; goto again; } return x; }";
    assert_eq!(run(source, "forward", &[3]), 3);
    assert_eq!(run(source, "backward", &[3]), 0);
}

#[test]
fn logical_operators_evaluate_only_what_they_need() {
    let source = "int f(int a, int *p) { return a && *p; } int g(int a, int *p) { return a || *p; }";
    assert_eq!(run(source, "f", &[0, 1 << 20]), 0);
    assert_eq!(run(source, "g", &[7, 1 << 20]), 1);
    assert_eq!(run(source, "g", &[0, 0]), 0);
}

#[test]
fn the_unchosen_value_is_not_computed() {
    let source = "int f(int a, int *p) { return a ? a : *p; }";
    assert_eq!(run(source, "f", &[7, 1 << 20]), 7);
    assert_eq!(run(source, "f", &[0, 0]), 0);
}

#[test]
fn a_local_keeps_its_value_when_its_address_is_taken() {
    let source = "int f(void) { int x = 3; int *p = &x; *p = 9; return x + 1; } int g(void) { int x = 1; int *p = &x; x = 5; return *p; }";
    assert_eq!(run(source, "f", &[]), 10);
    assert_eq!(run(source, "g", &[]), 5);
}

#[test]
fn structs_are_copied_whole_and_passed_by_value() {
    let source = "struct pair { int a; int b; }; struct pair make(int x) { struct pair p = { x, x + 1 }; return p; } int sum(struct pair p) { p.a = p.a + 10; return p.a + p.b; } int run(void) { return sum(make(3)); } int kept(void) { struct pair p = {1, 2}; int x = sum(p); return p.a + x; }";
    assert_eq!(run(source, "run", &[]), 17);
    assert_eq!(run(source, "kept", &[]), 14);
    let source = "struct bytes { char a; char b; char c; }; int f(void) { struct bytes a = {1, 2, 3}; struct bytes b; b = a; return b.a + b.b + b.c; }";
    assert_eq!(run(source, "f", &[]), 6);
}

#[test]
fn what_a_local_initializer_leaves_out_is_zero() {
    let source = "struct inner { int x; int y; }; struct outer { struct inner p; int a[3]; }; int f(void) { struct outer o = {{7}, {8}}; return o.p.x + o.p.y + o.a[0] + o.a[2]; }";
    assert_eq!(run(source, "f", &[]), 15);
    let source = "struct s { int a; int b; int c; }; int f(void) { int a[5] = { [2] = 7, 8 }; struct s v = { .b = 4, 5 }; return a[0] + a[2] + a[3] + v.a + v.b + v.c; }";
    assert_eq!(run(source, "f", &[]), 24);
    let source = "int f(void) { char text[8] = \"ab\"; return text[0] + text[6]; }";
    assert_eq!(run(source, "f", &[]), 97);
}

#[test]
fn pointers_move_by_elements() {
    let source = "int f(int *p, int i) { int *a = p + i; int *b = i + p; return (a == b) + (a - p); } struct pair { int x; int y; }; int g(struct pair *a, struct pair *b) { return a - b; }";
    assert_eq!(run(source, "f", &[16, 3]), 4);
    assert_eq!(run(source, "g", &[48, 16]), 4);
}

#[test]
fn arrays_of_variable_length_are_addressed() {
    let source = "int f(int n) { int a[n + 3]; a[n] = 11; return a[n]; } unsigned s(int n) { int a[n + 2]; return sizeof(a); }";
    assert_eq!(run(source, "f", &[2]), 11);
    assert_eq!(run(source, "s", &[3]), 20);
}

#[test]
fn nested_calls_run() {
    let source = "int inc(int x) { return x + 1; } int twice(int x) { return inc(inc(x)); }";
    assert_eq!(run(source, "twice", &[5]), 7);
}

#[test]
fn a_function_that_can_run_past_its_end_is_refused() {
    let error = compile_source("int f(int x) { if (x) return 1; }").unwrap_err();
    assert_eq!(
        error.to_string(),
        "non-void SIA32 functions must end in an explicit return statement"
    );
    assert_compiles("void f(int x) { if (x) return; }", 1);
}

#[test]
fn a_source_without_functions_is_refused() {
    let error = compile_source("int x = 3;").unwrap_err();
    assert_eq!(error.to_string(), "the source contains no C function definitions");
}

#[test]
fn a_failure_of_the_code_generator_comes_before_a_later_refusal() {
    let error =
        compile_source("float f(float x) { return x; } int g(void) { break; return 0; }").unwrap_err();
    assert!(error.to_string().starts_with("SIA32 lowering failed for f: SSA value type f32\nCLIF:\n"));
    let error =
        compile_source("int g(void) { break; return 0; } float f(float x) { return x; }").unwrap_err();
    assert_eq!(error.to_string(), "break outside a SIA32 loop or switch");
}

#[test]
fn calls_refer_to_their_functions_by_number() {
    let source = "int one(void) { return 1; } int two(void) { return one() + one(); }";
    let artifact = assert_compiles(source, 2);
    assert!(artifact.functions[0].relocations.is_empty());
    assert_eq!(artifact.functions[1].relocations.len(), 2);
    assert!(artifact.functions[1].relocations.iter().all(|r| r.target == "one"));
}

#[test]
fn equal_strings_share_one_object_and_others_do_not() {
    let source = "const char *a = \"x\"; const char *b = \"y\"; const char *c = \"x\"; int f(void) { return 0; }";
    let artifact = assert_compiles(source, 1);
    let names: Vec<&str> = artifact.data.iter().map(|object| object.name.as_str()).collect();
    assert_eq!(names, vec!["__cosmic_str_0", "__cosmic_str_1", "a", "b", "c"]);
    assert_eq!(artifact.data[2].relocations[0].target, "__cosmic_str_0");
    assert_eq!(artifact.data[3].relocations[0].target, "__cosmic_str_1");
    assert_eq!(artifact.data[4].relocations[0].target, "__cosmic_str_0");
}

#[test]
fn static_names_tell_equal_names_apart() {
    let source = "static int x; int f(void) { static int x = 1; return x; } int g(void) { static int x = 2; return x; }";
    let artifact = assert_compiles(source, 2);
    let names: Vec<&str> = artifact.data.iter().map(|object| object.name.as_str()).collect();
    assert_eq!(
        names,
        vec![
            "__cosmic_static_local_1_0_x",
            "__cosmic_static_local_2_1_x",
            "__cosmic_static_global_0_x",
        ]
    );
    assert_eq!(artifact.functions[0].relocations[0].target, "__cosmic_static_local_1_0_x");
    assert_eq!(artifact.functions[1].relocations[0].target, "__cosmic_static_local_2_1_x");
}

#[test]
fn an_increment_gives_the_old_value_and_stores_the_new_one() {
    let source = "int g = 7; int f(void) { int a = g++; int b = g--; g++; return a * 10000 + b * 100 + g; }";
    assert_eq!(run(source, "f", &[]), 70808);
    let source = "int f(void) { static int n = 5; int a = n++; n++; return a * 10 + n; }";
    assert_eq!(run(source, "f", &[]), 57);
    let source = "int f(void) { int x = 3; int *p = &x; int a = (*p)++; int b = (*p)--; (*p)--; return a * 100 + b * 10 + x; }";
    assert_eq!(run(source, "f", &[]), 342);
    let source = "int g = 9; int *p = &g; int f(void) { int a = (*p)++; return a * 100 + g; }";
    assert_eq!(run(source, "f", &[]), 910);
    let source = "int f(void) { int x = 3; int *p = &x; int **pp = &p; int a = (**pp)++; return a * 10 + x; }";
    assert_eq!(run(source, "f", &[]), 34);
    let source = "int f(void) { int a[3] = {1, 5, 9}; int i = 1; int old = a[i]++; a[2]--; return old * 1000 + a[0] * 100 + a[1] * 10 + a[2]; }";
    assert_eq!(run(source, "f", &[]), 5168);
    let source = "struct pair { int a; int b; }; struct pair g = {1, 2}; int f(void) { struct pair *p = &g; int old = p->b++; p->a--; return old * 100 + g.a * 10 + g.b; }";
    assert_eq!(run(source, "f", &[]), 203);
}

#[test]
fn the_address_of_an_increment_is_computed_once() {
    let source = "int f(void) { int a[3] = {10, 20, 30}; int i = 0; a[i++]++; return i * 10000 + a[0] * 100 + a[1]; }";
    assert_eq!(run(source, "f", &[]), 11120);
    let source = "int f(void) { int a[2] = {10, 20}; int *p = a; int old = (*p++)--; return old * 100 + a[0] + *p; }";
    assert_eq!(run(source, "f", &[]), 1029);
}

#[test]
fn an_increment_moves_pointers_by_elements() {
    let source = "int a[3] = {4, 5, 6}; int *p; int f(void) { p = a; int *q = p++; return *q * 10 + *p; }";
    assert_eq!(run(source, "f", &[]), 45);
    let source = "short a[3] = {4, 5, 6}; int f(void) { short *p = &a[2]; short **pp = &p; (*pp)--; return *p; }";
    assert_eq!(run(source, "f", &[]), 5);
}

#[test]
fn an_increment_wraps_at_the_declared_width() {
    let source = "int f(void) { unsigned char c = 255; int old = c++; return old * 1000 + c; }";
    assert_eq!(run(source, "f", &[]), 255_000);
    let source = "int f(void) { signed char c = 0; c--; signed char *p = &c; int a = c; c--; return a * 100 + c + *p; }";
    assert_eq!(run(source, "f", &[]), -104);
    let source = "int f(void) { unsigned short s = 65535; unsigned short *p = &s; s++; int a = s; (*p)--; return a * 10 + (s == 65535); }";
    assert_eq!(run(source, "f", &[]), 1);
    let source = "struct bytes { unsigned char a; unsigned char b; unsigned char c; }; struct bytes g = {1, 255, 3}; int f(void) { int old = g.b++; return old * 1000 + g.a * 100 + g.b * 10 + g.c; }";
    assert_eq!(run(source, "f", &[]), 255_103);
    let source = "unsigned char a[4] = {1, 0, 2, 3}; int f(void) { unsigned char *p = a; p[1]--; return a[0] + a[1] * 10 + a[2] * 10000 + a[3] * 100000; }";
    assert_eq!(run(source, "f", &[]), 322_551);
}

#[test]
fn a_narrow_local_is_initialized_at_its_width() {
    let source = "int f(int x) { unsigned char c = x; short s = c; char *p = &c; *p = 1; return c * 1000 + s; }";
    assert_eq!(run(source, "f", &[0x1_02c8]), 1200);
}

#[test]
fn the_chosen_operands_take_effect_and_the_others_do_not() {
    let source = "int n; int hit(int v) { n++; return v; } int f(int a, int b) { n = 0; int r = hit(a) && hit(b); return r * 10 + n; } int g(int a, int b) { n = 0; int r = hit(a) || hit(b); return r * 10 + n; } int h(int a) { n = 0; int r = a ? hit(5) : (hit(6), hit(7)); return r * 10 + n; } int k(int a, int b, int c) { n = 0; int r = (hit(a) || hit(b)) && hit(c); return r * 10 + n; }";
    assert_eq!(run(source, "f", &[0, 9]), 1);
    assert_eq!(run(source, "f", &[4, 0]), 2);
    assert_eq!(run(source, "f", &[4, 9]), 12);
    assert_eq!(run(source, "g", &[0, 0]), 2);
    assert_eq!(run(source, "g", &[0, 9]), 12);
    assert_eq!(run(source, "g", &[4, 9]), 11);
    assert_eq!(run(source, "h", &[3]), 51);
    assert_eq!(run(source, "h", &[0]), 72);
    assert_eq!(run(source, "k", &[4, 0, 0]), 2);
    assert_eq!(run(source, "k", &[0, 4, 9]), 13);
    assert_eq!(run(source, "k", &[0, 0, 9]), 2);
}
