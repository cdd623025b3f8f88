//! Dynamic method dispatch: a receiver's reflective class declaration, the
//! validation of a call against it (lookup, arity, per-argument type), and
//! the structured, chainable error produced when any step fails.
//!
//! The fallible entry point `try_call` is the primitive; the panic-free
//! `call` is specified on exactly the inputs `try_call` accepts, so the two
//! can never disagree.

use vstd::prelude::*;

use crate::text::{dec_rep, join_strs, lemma_join_strs_push, push_dec_u64};
use crate::variant::{conv_message, rust_name_spec, ConvertError, Variant, VariantType};

verus! {

/// A declared method: its name and the declared type of each parameter, in
/// order.
pub struct MethodDecl {
    name: String,
    params: Vec<VariantType>,
    engine_native: bool,
}

impl MethodDecl {
    /// The method's name.
    pub closed spec fn name_view(self) -> Seq<char> {
        self.name@
    }

    /// The declared parameter types, in order.
    pub closed spec fn params_view(self) -> Seq<VariantType> {
        self.params@
    }

    /// Whether the engine itself validates calls to this method: the
    /// dispatcher then passes arguments through without re-validating
    /// arity or types, and attaches whatever fault the engine reports.
    pub closed spec fn is_engine_native(self) -> bool {
        self.engine_native
    }

    /// Declares a host method, validated by the dispatcher before any
    /// argument is touched.
    pub fn new(name: &str, params: Vec<VariantType>) -> (m: MethodDecl)
        ensures
            m.name_view() == name@,
            m.params_view() == params@,
            !m.is_engine_native(),
    {
        MethodDecl { name: name.to_owned(), params, engine_native: false }
    }

    /// Declares an engine-native method, validated by the engine itself.
    pub fn new_engine_native(name: &str, params: Vec<VariantType>) -> (m: MethodDecl)
        ensures
            m.name_view() == name@,
            m.params_view() == params@,
            m.is_engine_native(),
    {
        MethodDecl { name: name.to_owned(), params, engine_native: true }
    }
}

/// A receiver's reflective class: its declared name and method table.
pub struct ClassDecl {
    name: String,
    methods: Vec<MethodDecl>,
}

/// The first method of the table carrying `name`, if any.
pub open spec fn find_method(ms: Seq<MethodDecl>, name: Seq<char>) -> Option<MethodDecl>
    decreases ms.len(),
{
    if ms.len() == 0 {
        None
    } else if ms[0].name_view() == name {
        Some(ms[0])
    } else {
        find_method(ms.subrange(1, ms.len() as int), name)
    }
}

proof fn lemma_find_method_at(ms: Seq<MethodDecl>, name: Seq<char>, i: int)
    requires
        0 <= i <= ms.len(),
        forall|j: int| 0 <= j < i ==> (#[trigger] ms[j]).name_view() != name,
        i < ms.len() ==> ms[i].name_view() == name,
    ensures
        find_method(ms, name) == if i < ms.len() {
            Some(ms[i])
        } else {
            None::<MethodDecl>
        },
    decreases ms.len(),
{
    if ms.len() == 0 {
    } else if i == 0 {
    } else {
        let rest = ms.subrange(1, ms.len() as int);
        assert(forall|j: int| 0 <= j < i - 1 ==> (#[trigger] rest[j]).name_view() != name);
        lemma_find_method_at(rest, name, i - 1);
        if i < ms.len() {
            assert(rest[i - 1] == ms[i]);
        }
    }
}

/// Smallest index at or after `k` whose argument tag differs from the
/// declared parameter type; the argument count when all match.
pub open spec fn first_mismatch_from(params: Seq<VariantType>, args: Seq<Variant>, k: int) -> int
    decreases args.len() - k,
{
    if k >= args.len() || k >= params.len() {
        args.len() as int
    } else if args[k].tag() != params[k] {
        k
    } else {
        first_mismatch_from(params, args, k + 1)
    }
}

/// Smallest argument index whose tag differs from the declared parameter
/// type; the argument count when all match.
pub open spec fn first_mismatch(params: Seq<VariantType>, args: Seq<Variant>) -> int {
    first_mismatch_from(params, args, 0)
}

proof fn lemma_first_mismatch_at(params: Seq<VariantType>, args: Seq<Variant>, j: int, i: int)
    requires
        params.len() == args.len(),
        0 <= j <= i <= args.len(),
        forall|k: int| j <= k < i ==> (#[trigger] args[k]).tag() == params[k],
        i < args.len() ==> args[i].tag() != params[i],
    ensures
        first_mismatch_from(params, args, j) == if i < args.len() {
            i
        } else {
            args.len() as int
        },
    decreases i - j,
{
    if j < i {
        lemma_first_mismatch_at(params, args, j + 1, i);
    }
}

/// The debug forms of the arguments, in order.
pub open spec fn debug_seq(args: Seq<Variant>) -> Seq<Seq<char>> {
    Seq::new(args.len(), |i: int| args[i].debug_spec())
}

/// The variadic argument list in a rendered call expression: empty, or a
/// marker followed by the comma-separated argument debug forms.
pub open spec fn va_tail(args: Seq<Variant>) -> Seq<char> {
    if args.len() == 0 {
        Seq::empty()
    } else {
        ", [va] "@ + join_strs(debug_seq(args), ", "@)
    }
}

/// The rendered user-facing entry call: the dynamic-call method of the
/// object base class, with the target method name and the arguments.
pub open spec fn outer_call_expr(method: Seq<char>, args: Seq<Variant>) -> Seq<char> {
    "Object::call(&\""@ + method + "\""@ + va_tail(args) + ")"@
}

/// The rendered originating frame: class and method of the failed target.
pub open spec fn inner_call_expr(class: Seq<char>, method: Seq<char>) -> Seq<char> {
    class + "::"@ + method + "()"@
}

/// The arity-mismatch reason, with both counts and grammatical number.
pub open spec fn arity_reason(n: int, m: int) -> Seq<char> {
    "function has "@ + dec_rep(n) + (if n == 1 {
        " parameter"@
    } else {
        " parameters"@
    }) + ", but received "@ + dec_rep(m) + (if m == 1 {
        " argument"@
    } else {
        " arguments"@
    })
}

/// The parameter-conversion reason: the zero-based index and the
/// host-native type the declared parameter converts to.
pub open spec fn param_reason(i: int, t: VariantType) -> Seq<char> {
    "parameter #"@ + dec_rep(i) + " ("@ + rust_name_spec(t) + ") conversion"@
}

/// The view of an optional source location.
pub open spec fn loc_view(loc: Option<(String, u64)>) -> Option<(Seq<char>, int)> {
    match loc {
        Some(fl) => Some((fl.0@, fl.1 as int)),
        None => None,
    }
}

/// The execution-fault reason: the captured panic message, with the source
/// location when it could be resolved.
pub open spec fn panic_reason(msg: Seq<char>, loc: Option<(Seq<char>, int)>) -> Seq<char> {
    "[panic]  "@ + msg + (match loc {
        Some(fl) => "\n  at "@ + fl.0 + ":"@ + dec_rep(fl.1),
        None => Seq::<char>::empty(),
    })
}

/// The structure of one failed call: where it failed and why, with an
/// optional deeper cause.
pub struct ErrView {
    pub class_name: Option<Seq<char>>,
    pub method_name: Seq<char>,
    pub call_expr: Seq<char>,
    pub reason: Seq<char>,
    pub source: Option<Box<ErrView>>,
}

/// The user-facing top error: it always names the object base class's
/// dynamic-call entry point.
pub open spec fn root_err(
    method: Seq<char>,
    args: Seq<Variant>,
    reason: Seq<char>,
    source: Option<Box<ErrView>>,
) -> ErrView {
    ErrView {
        class_name: Some("Object"@),
        method_name: "call"@,
        call_expr: outer_call_expr(method, args),
        reason,
        source,
    }
}

/// An originating frame: the class and method where the failure arose.
pub open spec fn frame_err(
    class: Seq<char>,
    method: Seq<char>,
    reason: Seq<char>,
    source: Option<Box<ErrView>>,
) -> ErrView {
    ErrView {
        class_name: Some(class),
        method_name: method,
        call_expr: inner_call_expr(class, method),
        reason,
        source,
    }
}

/// The innermost frame of a type mismatch: the conversion diagnostic.
pub open spec fn conv_frame(
    expected: VariantType,
    actual_tag: VariantType,
    actual_dbg: Seq<char>,
    method: Seq<char>,
) -> ErrView {
    ErrView {
        class_name: None,
        method_name: method,
        call_expr: conv_message(expected, actual_tag, actual_dbg),
        reason: Seq::empty(),
        source: None,
    }
}

/// What the engine reported after a validated call was forwarded to it.
pub enum ExecOutcome {
    /// The target returned this value.
    Returned(Variant),
    /// The target returned no value; the call yields nil.
    NoReturn,
    /// The target failed irrecoverably with this message, at this source
    /// file and line when resolvable.
    Panicked(String, Option<(String, u64)>),
    /// The engine itself refused or failed the call and reported this
    /// reason; it is attached to the user-facing error unmodified.
    EngineFault(String),
}

/// The error an engine report maps to after validation: none on a
/// returned value, an originating frame for a captured panic, the engine's
/// own reason passed through unmodified for an engine fault.
pub open spec fn outcome_err(
    class: ClassDecl,
    method: Seq<char>,
    args: Seq<Variant>,
    outcome: ExecOutcome,
) -> Option<ErrView> {
    match outcome {
        ExecOutcome::Panicked(msg, loc) => Some(
            root_err(
                method,
                args,
                Seq::empty(),
                Some(
                    Box::new(
                        frame_err(class.name_view(), method, panic_reason(msg@, loc_view(loc)), None),
                    ),
                ),
            ),
        ),
        ExecOutcome::EngineFault(reason) => Some(root_err(method, args, reason@, None)),
        _ => None,
    }
}

/// The error a dynamic call reports, or none when it succeeds: lookup
/// failure; then, for host methods only, arity mismatch and the first
/// argument type mismatch (an engine-native method is not re-validated
/// here); then whatever the engine reported of the forwarded call.
pub open spec fn try_call_err(
    class: ClassDecl,
    method: Seq<char>,
    args: Seq<Variant>,
    outcome: ExecOutcome,
) -> Option<ErrView> {
    match find_method(class.methods_view(), method) {
        None => Some(root_err(method, args, "method not found"@, None)),
        Some(m) => if m.is_engine_native() {
            outcome_err(class, method, args, outcome)
        } else if m.params_view().len() != args.len() {
            Some(
                root_err(
                    method,
                    args,
                    Seq::empty(),
                    Some(
                        Box::new(
                            frame_err(
                                class.name_view(),
                                method,
                                arity_reason(m.params_view().len() as int, args.len() as int),
                                None,
                            ),
                        ),
                    ),
                ),
            )
        } else if first_mismatch(m.params_view(), args) < args.len() {
            let i = first_mismatch(m.params_view(), args);
            Some(
                root_err(
                    method,
                    args,
                    Seq::empty(),
                    Some(
                        Box::new(
                            frame_err(
                                class.name_view(),
                                method,
                                param_reason(i, m.params_view()[i]),
                                Some(
                                    Box::new(
                                        conv_frame(
                                            m.params_view()[i],
                                            args[i].tag(),
                                            args[i].debug_spec(),
                                            method,
                                        ),
                                    ),
                                ),
                            ),
                        ),
                    ),
                ),
            )
        } else {
            outcome_err(class, method, args, outcome)
        },
    }
}

/// One failed call: the class and method it names, the rendered call
/// expression, the reason, and the deeper cause when one exists.
#[derive(Debug)]
pub struct CallError {
    class_name: Option<String>,
    method_name: String,
    call_expr: String,
    reason: String,
    source: Option<Box<CallError>>,
}

impl CallError {
    /// The structure of this error.
    pub closed spec fn evw(self) -> ErrView
        decreases self,
    {
        ErrView {
            class_name: match self.class_name {
                Some(s) => Some(s@),
                None => None,
            },
            method_name: self.method_name@,
            call_expr: self.call_expr@,
            reason: self.reason@,
            source: match self.source {
                Some(b) => Some(Box::new((*b).evw())),
                None => None,
            },
        }
    }

    /// The class this error names, if any.
    pub fn class_name(&self) -> (r: Option<&str>)
        ensures
            match r {
                Some(s) => self.evw().class_name == Some(s@),
                None => self.evw().class_name is None,
            },
    {
        match &self.class_name {
            Some(s) => Some(s.as_str()),
            None => None,
        }
    }

    /// The method this error names.
    pub fn method_name(&self) -> (r: &str)
        ensures
            r@ == self.evw().method_name,
    {
        self.method_name.as_str()
    }

    /// The reason line of this error; empty when only a deeper cause
    /// carries one.
    pub fn reason(&self) -> (r: &str)
        ensures
            r@ == self.evw().reason,
    {
        self.reason.as_str()
    }

    /// The deeper cause, if any.
    pub fn source(&self) -> (r: Option<&CallError>)
        ensures
            match r {
                Some(e) => self.evw().source == Some(Box::new(e.evw())),
                None => self.evw().source is None,
            },
    {
        match &self.source {
            Some(b) => Some(&**b),
            None => None,
        }
    }

    /// The rendered chain, as `render_spec` of this error's structure.
    pub fn render(&self) -> (r: String)
        ensures
            r@ == render_spec(self.evw()),
    {
        let mut out = String::new();
        out.append("godot-rust function call failed: ");
        out.append(self.call_expr.as_str());
        push_tail(self, &mut out);
        out
    }
}

/// The reason and source lines below one error's heading: its reason when
/// non-empty, then each deeper cause's heading and reason in turn,
/// innermost last.
pub open spec fn render_tail(e: ErrView) -> Seq<char>
    decreases e,
{
    (if e.reason.len() > 0 {
        "\n    Reason: "@ + e.reason
    } else {
        Seq::<char>::empty()
    }) + (match e.source {
        Some(b) => "\n  Source: "@ + b.call_expr + render_tail(*b),
        None => Seq::<char>::empty(),
    })
}

/// The full rendering: a fixed preamble, the rendered call expression, then
/// the chained reasons and sources.
pub open spec fn render_spec(e: ErrView) -> Seq<char> {
    "godot-rust function call failed: "@ + e.call_expr + render_tail(e)
}

fn push_tail(e: &CallError, out: &mut String)
    ensures
        final(out)@ == old(out)@ + render_tail(e.evw()),
    decreases *e,
{
    if !e.reason.as_str().is_empty() {
        out.append("\n    Reason: ");
        out.append(e.reason.as_str());
    }
    match &e.source {
        Some(b) => {
            out.append("\n  Source: ");
            out.append(b.call_expr.as_str());
            push_tail(&**b, out);
        },
        None => {},
    }
    proof {
        assert(out@ =~= old(out)@ + render_tail(e.evw()));
    }
}

/// Whether the two character sequences are equal, decided character by
/// character.
pub fn str_eq(a: &str, b: &str) -> (r: bool)
    ensures
        r == (a@ == b@),
{
    let la = a.unicode_len();
    let lb = b.unicode_len();
    if la != lb {
        return false;
    }
    let mut i: usize = 0;
    while i < la
        invariant
            i <= la,
            la == a@.len(),
            lb == b@.len(),
            la == lb,
            forall|k: int| 0 <= k < i ==> a@[k] == b@[k],
        decreases la - i,
    {
        if a.get_char(i) != b.get_char(i) {
            return false;
        }
        i = i + 1;
    }
    proof {
        assert(a@ =~= b@);
    }
    true
}

fn outer_expr_string(method: &str, args: &Vec<Variant>) -> (r: String)
    ensures
        r@ == outer_call_expr(method@, args@),
{
    let mut out = String::new();
    out.append("Object::call(&\"");
    out.append(method);
    out.append("\"");
    if args.len() > 0 {
        out.append(", [va] ");
        let ghost head = "Object::call(&\""@ + method@ + "\""@ + ", [va] "@;
        proof {
            assert(out@ =~= head + join_strs(debug_seq(args@).subrange(0, 0), ", "@));
        }
        let mut i: usize = 0;
        while i < args.len()
            invariant
                i <= args@.len(),
                args@.len() > 0,
                head == "Object::call(&\""@ + method@ + "\""@ + ", [va] "@,
                out@ == head + join_strs(debug_seq(args@).subrange(0, i as int), ", "@),
            decreases args@.len() - i,
        {
            let ghost sofar = debug_seq(args@).subrange(0, i as int);
            if i > 0 {
                out.append(", ");
            }
            args[i].push_debug(&mut out);
            proof {
                lemma_join_strs_push(sofar, ", "@, args@[i as int].debug_spec());
                assert(sofar.push(args@[i as int].debug_spec()) =~= debug_seq(args@).subrange(
                    0,
                    i + 1,
                ));
                assert(out@ =~= head + join_strs(debug_seq(args@).subrange(0, i + 1), ", "@));
            }
            i = i + 1;
        }
        proof {
            assert(debug_seq(args@).subrange(0, args@.len() as int) =~= debug_seq(args@));
        }
    }
    out.append(")");
    proof {
        assert(out@ =~= outer_call_expr(method@, args@));
    }
    out
}

fn inner_expr_string(class: &str, method: &str) -> (r: String)
    ensures
        r@ == inner_call_expr(class@, method@),
{
    let mut out = String::new();
    out.append(class);
    out.append("::");
    out.append(method);
    out.append("()");
    proof {
        assert(out@ =~= inner_call_expr(class@, method@));
    }
    out
}

fn arity_reason_string(n: u64, m: u64) -> (r: String)
    ensures
        r@ == arity_reason(n as int, m as int),
{
    let mut out = String::new();
    out.append("function has ");
    push_dec_u64(n, &mut out);
    if n == 1 {
        out.append(" parameter");
    } else {
        out.append(" parameters");
    }
    out.append(", but received ");
    push_dec_u64(m, &mut out);
    if m == 1 {
        out.append(" argument");
    } else {
        out.append(" arguments");
    }
    proof {
        assert(out@ =~= arity_reason(n as int, m as int));
    }
    out
}

fn param_reason_string(i: u64, t: VariantType) -> (r: String)
    ensures
        r@ == param_reason(i as int, t),
{
    let mut out = String::new();
    out.append("parameter #");
    push_dec_u64(i, &mut out);
    out.append(" (");
    out.append(t.rust_name());
    out.append(") conversion");
    proof {
        assert(out@ =~= param_reason(i as int, t));
    }
    out
}

fn panic_reason_string(msg: &str, loc: &Option<(String, u64)>) -> (r: String)
    ensures
        r@ == panic_reason(msg@, loc_view(*loc)),
{
    let mut out = String::new();
    out.append("[panic]  ");
    out.append(msg);
    match loc {
        Some(fl) => {
            out.append("\n  at ");
            out.append(fl.0.as_str());
            out.append(":");
            push_dec_u64(fl.1, &mut out);
            proof {
                assert(out@ =~= panic_reason(msg@, loc_view(*loc)));
            }
        },
        None => {
            proof {
                assert(out@ =~= panic_reason(msg@, loc_view(*loc)));
            }
        },
    }
    out
}

impl ClassDecl {
    /// The class's declared name.
    pub closed spec fn name_view(self) -> Seq<char> {
        self.name@
    }

    /// The class's method table, in declaration order.
    pub closed spec fn methods_view(self) -> Seq<MethodDecl> {
        self.methods@
    }

    /// Declares a class with an empty method table.
    pub fn new(name: &str) -> (c: ClassDecl)
        ensures
            c.name_view() == name@,
            c.methods_view() == Seq::<MethodDecl>::empty(),
    {
        let c = ClassDecl { name: name.to_owned(), methods: Vec::new() };
        proof {
            assert(c.methods_view() =~= Seq::<MethodDecl>::empty());
        }
        c
    }

    /// Appends one declared method to the table.
    pub fn add_method(&mut self, m: MethodDecl)
        ensures
            final(self).name_view() == old(self).name_view(),
            final(self).methods_view() == old(self).methods_view().push(m),
    {
        self.methods.push(m);
    }

    fn find_method_idx(&self, name: &str) -> (r: Option<usize>)
        ensures
            match r {
                Some(i) => i < self.methods_view().len() && find_method(self.methods_view(), name@)
                    == Some(self.methods_view()[i as int]),
                None => find_method(self.methods_view(), name@) is None,
            },
    {
        let mut i: usize = 0;
        while i < self.methods.len()
            invariant
                i <= self.methods_view().len(),
                forall|j: int|
                    0 <= j < i ==> (#[trigger] self.methods_view()[j]).name_view() != name@,
            decreases self.methods_view().len() - i,
        {
            if str_eq(self.methods[i].name.as_str(), name) {
                proof {
                    lemma_find_method_at(self.methods_view(), name@, i as int);
                }
                return Some(i);
            }
            i = i + 1;
        }
        proof {
            lemma_find_method_at(self.methods_view(), name@, i as int);
        }
        None
    }

    /// Invokes `method` dynamically: resolves it in the method table; for a
    /// host method, checks the argument count against the declaration and
    /// then each argument's type in order, before any argument is touched;
    /// an engine-native method is passed through, the engine validating it
    /// itself. Only then is the engine's reported `outcome` accepted. Every
    /// failure is reported as a structured, chained error; a validated call
    /// yields the returned value, or nil when there is none.
    pub fn try_call(&self, method: &str, args: &Vec<Variant>, outcome: ExecOutcome) -> (r: Result<
        Variant,
        CallError,
    >)
        ensures
            r is Ok <==> try_call_err(*self, method@, args@, outcome) is None,
            r matches Err(e) ==> Some(e.evw()) == try_call_err(*self, method@, args@, outcome),
            r is Ok ==> match outcome {
                ExecOutcome::Returned(v) => r == Ok::<Variant, CallError>(v),
                ExecOutcome::NoReturn => r == Ok::<Variant, CallError>(Variant::Nil),
                _ => false,
            },
    {
        let idx = match self.find_method_idx(method) {
            None => {
                let expr = outer_expr_string(method, args);
                let mut reason = String::new();
                reason.append("method not found");
                let err = CallError {
                    class_name: Some(object_name()),
                    method_name: call_name(),
                    call_expr: expr,
                    reason,
                    source: None,
                };
                proof {
                    assert(err.evw() == root_err(method@, args@, "method not found"@, None));
                }
                return Err(err);
            },
            Some(i) => i,
        };
        let m = &self.methods[idx];
        let ghost mspec = find_method(self.methods_view(), method@).unwrap();
        if m.engine_native {
            return self.handle_outcome(method, args, outcome);
        }
        if m.params.len() != args.len() {
            let expr = outer_expr_string(method, args);
            let inner = CallError {
                class_name: Some(self.name.clone()),
                method_name: method.to_owned(),
                call_expr: inner_expr_string(self.name.as_str(), method),
                reason: arity_reason_string(m.params.len() as u64, args.len() as u64),
                source: None,
            };
            let err = CallError {
                class_name: Some(object_name()),
                method_name: call_name(),
                call_expr: expr,
                reason: String::new(),
                source: Some(Box::new(inner)),
            };
            proof {
                assert(inner.evw() == frame_err(
                    self.name_view(),
                    method@,
                    arity_reason(mspec.params_view().len() as int, args@.len() as int),
                    None,
                ));
                assert(err.evw() == root_err(
                    method@,
                    args@,
                    Seq::<char>::empty(),
                    Some(Box::new(inner.evw())),
                ));
            }
            return Err(err);
        }
        let mut k: usize = 0;
        while k < args.len()
            invariant
                k <= args@.len(),
                m == &self.methods[idx as int],
                idx < self.methods_view().len(),
                mspec == self.methods_view()[idx as int],
                mspec.params_view().len() == args@.len(),
                !mspec.is_engine_native(),
                find_method(self.methods_view(), method@) == Some(mspec),
                forall|j: int|
                    0 <= j < k ==> (#[trigger] args@[j]).tag() == mspec.params_view()[j],
            decreases args@.len() - k,
        {
            let arg_tag = args[k].get_type();
            let want = m.params[k];
            if !variant_type_eq(arg_tag, want) {
                proof {
                    lemma_first_mismatch_at(mspec.params_view(), args@, 0, k as int);
                }
                let expr = outer_expr_string(method, args);
                let conv = ConvertError::new(want, &args[k]);
                let inner2 = CallError {
                    class_name: None,
                    method_name: method.to_owned(),
                    call_expr: conv.message(),
                    reason: String::new(),
                    source: None,
                };
                let inner = CallError {
                    class_name: Some(self.name.clone()),
                    method_name: method.to_owned(),
                    call_expr: inner_expr_string(self.name.as_str(), method),
                    reason: param_reason_string(k as u64, want),
                    source: Some(Box::new(inner2)),
                };
                let err = CallError {
                    class_name: Some(object_name()),
                    method_name: call_name(),
                    call_expr: expr,
                    reason: String::new(),
                    source: Some(Box::new(inner)),
                };
                proof {
                    assert(inner2.evw() == conv_frame(
                        mspec.params_view()[k as int],
                        args@[k as int].tag(),
                        args@[k as int].debug_spec(),
                        method@,
                    ));
                    assert(inner.evw() == frame_err(
                        self.name_view(),
                        method@,
                        param_reason(k as int, mspec.params_view()[k as int]),
                        Some(Box::new(inner2.evw())),
                    ));
                    assert(err.evw() == root_err(
                        method@,
                        args@,
                        Seq::<char>::empty(),
                        Some(Box::new(inner.evw())),
                    ));
                    assert(err.evw() == try_call_err(*self, method@, args@, outcome).unwrap());
                }
                return Err(err);
            }
            k = k + 1;
        }
        proof {
            lemma_first_mismatch_at(mspec.params_view(), args@, 0, args@.len() as int);
        }
        self.handle_outcome(method, args, outcome)
    }

    fn handle_outcome(&self, method: &str, args: &Vec<Variant>, outcome: ExecOutcome) -> (r:
        Result<Variant, CallError>)
        ensures
            r is Ok <==> outcome_err(*self, method@, args@, outcome) is None,
            r matches Err(e) ==> Some(e.evw()) == outcome_err(*self, method@, args@, outcome),
            r is Ok ==> match outcome {
                ExecOutcome::Returned(v) => r == Ok::<Variant, CallError>(v),
                ExecOutcome::NoReturn => r == Ok::<Variant, CallError>(Variant::Nil),
                _ => false,
            },
    {
        match outcome {
            ExecOutcome::Returned(v) => Ok(v),
            ExecOutcome::NoReturn => Ok(Variant::Nil),
            ExecOutcome::Panicked(msg, loc) => {
                let expr = outer_expr_string(method, args);
                let inner = CallError {
                    class_name: Some(self.name.clone()),
                    method_name: method.to_owned(),
                    call_expr: inner_expr_string(self.name.as_str(), method),
                    reason: panic_reason_string(msg.as_str(), &loc),
                    source: None,
                };
                let err = CallError {
                    class_name: Some(object_name()),
                    method_name: call_name(),
                    call_expr: expr,
                    reason: String::new(),
                    source: Some(Box::new(inner)),
                };
                proof {
                    assert(inner.evw() == frame_err(
                        self.name_view(),
                        method@,
                        panic_reason(msg@, loc_view(loc)),
                        None,
                    ));
                    assert(err.evw() == root_err(
                        method@,
                        args@,
                        Seq::<char>::empty(),
                        Some(Box::new(inner.evw())),
                    ));
                    assert(err.evw() == outcome_err(*self, method@, args@, outcome).unwrap());
                }
                Err(err)
            },
            ExecOutcome::EngineFault(reason) => {
                let ghost rv = reason@;
                let expr = outer_expr_string(method, args);
                let err = CallError {
                    class_name: Some(object_name()),
                    method_name: call_name(),
                    call_expr: expr,
                    reason,
                    source: None,
                };
                proof {
                    assert(err.evw() == root_err(method@, args@, rv, None));
                    assert(err.evw() == outcome_err(*self, method@, args@, outcome).unwrap());
                }
                Err(err)
            },
        }
    }

    /// The panic-free form of the dynamic call: defined on exactly the
    /// inputs `try_call` accepts, and returning exactly its success value,
    /// so the two entry points can never disagree.
    pub fn call(&self, method: &str, args: &Vec<Variant>, outcome: ExecOutcome) -> (v: Variant)
        requires
            try_call_err(*self, method@, args@, outcome) is None,
        ensures
            outcome matches ExecOutcome::Returned(x) ==> v == x,
            outcome matches ExecOutcome::NoReturn ==> v == Variant::Nil,
    {
        match self.try_call(method, args, outcome) {
            Ok(v) => v,
            Err(_) => unreached(),
        }
    }
}

/// Whether two kind tags are the same kind.
fn variant_type_eq(a: VariantType, b: VariantType) -> (r: bool)
    ensures
        r == (a == b),
{
    a == b
}

fn object_name() -> (r: String)
    ensures
        r@ == "Object"@,
{
    let mut out = String::new();
    out.append("Object");
    out
}

fn call_name() -> (r: String)
    ensures
        r@ == "call"@,
{
    let mut out = String::new();
    out.append("call");
    out
}

} // verus!
