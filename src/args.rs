use crate::describe::{has_enum_domain, Describe, ParamInfo, TypeInfo};
use vstd::prelude::*;

verus! {

/// The native binding types of the backend.
#[derive(Clone, Copy, PartialEq, Eq, Structural, Debug)]
pub enum BindType {
    Bool,
    Int2,
    Int4,
    Int8,
    Text,
}

/// A value supplied by the caller.
#[derive(Debug)]
pub enum Value<'a> {
    Bool(bool),
    Int(i64),
    /// Owned text.
    Text(String),
    /// Borrowed text.
    Str(&'a str),
}

/// An argument: a bare value, or one wrapped in "may be absent".
#[derive(Debug)]
pub enum Arg<'a> {
    Plain(Value<'a>),
    Optional(Option<Value<'a>>),
}

/// The source type of an argument, as named in a conversion error.
#[derive(Clone, Copy, PartialEq, Eq, Structural, Debug)]
pub enum ValueKind {
    Null,
    Bool,
    Int,
    Text,
}

/// A value converted into its target type, ready for encoding. Text borrows from
/// the argument it was bound from.
#[derive(Debug)]
pub enum Encoded<'a> {
    Null,
    Bool(bool),
    Int2(i16),
    Int4(i32),
    Int8(i64),
    Text(&'a str),
}

/// What an encoded value holds.
pub enum EncodedModel {
    Null,
    Bool(bool),
    Int2(i16),
    Int4(i32),
    Int8(i64),
    Text(Seq<char>),
}

impl<'a> View for Encoded<'a> {
    type V = EncodedModel;

    open spec fn view(&self) -> EncodedModel {
        match self {
            Encoded::Null => EncodedModel::Null,
            Encoded::Bool(b) => EncodedModel::Bool(*b),
            Encoded::Int2(n) => EncodedModel::Int2(*n),
            Encoded::Int4(n) => EncodedModel::Int4(*n),
            Encoded::Int8(n) => EncodedModel::Int8(*n),
            Encoded::Text(s) => EncodedModel::Text(s@),
        }
    }
}

/// What a sequence of encoded values holds.
pub open spec fn encoded_views<'a>(s: Seq<Encoded<'a>>) -> Seq<EncodedModel> {
    s.map_values(|e: Encoded<'a>| e@)
}

/// The bound arguments of one execution, in positional order.
#[derive(Debug)]
pub struct Arguments<'a> {
    pub values: Vec<Encoded<'a>>,
    /// The number of arguments reserved for.
    pub reserved_count: usize,
    /// The sum of the size estimates of the arguments, saturated at `usize::MAX`.
    pub reserved_bytes: usize,
}

/// Why parameter types could not be resolved or arguments could not be bound.
#[derive(Debug)]
pub enum BindError {
    UnsupportedParameterMode,
    UnsupportedParameterType { position: usize, type_info: TypeInfo },
    ArgumentCountMismatch { expected: usize, actual: usize },
    ArgumentConversionError { position: usize, source: ValueKind, target: BindType },
}

/// The backend's catalog of native binding types, by type identifier.
pub open spec fn native_type_of(oid: u32) -> Option<BindType> {
    if oid == 16 {
        Some(BindType::Bool)
    } else if oid == 21 {
        Some(BindType::Int2)
    } else if oid == 23 {
        Some(BindType::Int4)
    } else if oid == 20 {
        Some(BindType::Int8)
    } else if oid == 25 || oid == 1043 {
        Some(BindType::Text)
    } else {
        None
    }
}

/// The target type of a parameter: its native type, else text when its name is a
/// registered enumerated domain.
pub open spec fn resolve_type(t: TypeInfo, domains: Seq<crate::describe::EnumDomain>) -> Option<
    BindType,
> {
    match native_type_of(t.oid) {
        Some(b) => Some(b),
        None => if has_enum_domain(domains, t.name@) {
            Some(BindType::Text)
        } else {
            None
        },
    }
}

/// Resolution of the first `n` parameters, stopping at the first that fails.
pub open spec fn resolve_prefix(
    params: Seq<TypeInfo>,
    domains: Seq<crate::describe::EnumDomain>,
    n: nat,
) -> Result<Seq<BindType>, BindError>
    decreases n,
{
    if n == 0 || n > params.len() {
        Ok(Seq::empty())
    } else {
        match resolve_prefix(params, domains, (n - 1) as nat) {
            Err(e) => Err(e),
            Ok(s) => match resolve_type(params[n - 1], domains) {
                Some(b) => Ok(s.push(b)),
                None => Err(
                    BindError::UnsupportedParameterType {
                        position: (n - 1) as usize,
                        type_info: params[n - 1],
                    },
                ),
            },
        }
    }
}

/// The target types of a statement's parameters.
pub open spec fn resolve_spec(info: Describe) -> Result<Seq<BindType>, BindError> {
    match info.parameters {
        Some(ParamInfo::Typed(ps)) => resolve_prefix(ps@, info.known_enum_tys@, ps@.len()),
        _ => Err(BindError::UnsupportedParameterMode),
    }
}

/// What an argument holds when present.
pub open spec fn present_value<'a>(a: Arg<'a>) -> Option<Value<'a>> {
    match a {
        Arg::Plain(v) => Some(v),
        Arg::Optional(o) => o,
    }
}

/// The source type of a value, absent meaning `NULL`.
pub open spec fn kind_of<'a>(v: Option<Value<'a>>) -> ValueKind {
    match v {
        None => ValueKind::Null,
        Some(Value::Bool(_)) => ValueKind::Bool,
        Some(Value::Int(_)) => ValueKind::Int,
        Some(Value::Text(_)) => ValueKind::Text,
        Some(Value::Str(_)) => ValueKind::Text,
    }
}

/// The value converted into `t`; an absent value becomes `NULL` of any type.
pub open spec fn convert_spec<'a>(v: Option<Value<'a>>, t: BindType) -> Option<EncodedModel> {
    match v {
        None => Some(EncodedModel::Null),
        Some(Value::Bool(b)) => if t == BindType::Bool {
            Some(EncodedModel::Bool(b))
        } else {
            None
        },
        Some(Value::Int(n)) => match t {
            BindType::Int2 => if i16::MIN <= n <= i16::MAX {
                Some(EncodedModel::Int2(n as i16))
            } else {
                None
            },
            BindType::Int4 => if i32::MIN <= n <= i32::MAX {
                Some(EncodedModel::Int4(n as i32))
            } else {
                None
            },
            BindType::Int8 => Some(EncodedModel::Int8(n)),
            _ => None,
        },
        Some(Value::Text(s)) => if t == BindType::Text {
            Some(EncodedModel::Text(s@))
        } else {
            None
        },
        Some(Value::Str(s)) => if t == BindType::Text {
            Some(EncodedModel::Text(s@))
        } else {
            None
        },
    }
}

/// Conversion of the first `n` arguments, stopping at the first that fails.
pub open spec fn bind_prefix<'a>(targets: Seq<BindType>, args: Seq<Arg<'a>>, n: nat) -> Result<
    Seq<EncodedModel>,
    BindError,
>
    decreases n,
{
    if n == 0 || n > args.len() || n > targets.len() {
        Ok(Seq::empty())
    } else {
        match bind_prefix(targets, args, (n - 1) as nat) {
            Err(e) => Err(e),
            Ok(s) => match convert_spec(present_value(args[n - 1]), targets[n - 1]) {
                Some(x) => Ok(s.push(x)),
                None => Err(
                    BindError::ArgumentConversionError {
                        position: (n - 1) as usize,
                        source: kind_of(present_value(args[n - 1])),
                        target: targets[n - 1],
                    },
                ),
            },
        }
    }
}

/// The bound values of `args` against `targets`: an arity check, then each
/// argument in order.
pub open spec fn bind_spec<'a>(targets: Seq<BindType>, args: Seq<Arg<'a>>) -> Result<
    Seq<EncodedModel>,
    BindError,
> {
    if targets.len() != args.len() {
        Err(
            BindError::ArgumentCountMismatch {
                expected: targets.len() as usize,
                actual: args.len() as usize,
            },
        )
    } else {
        bind_prefix(targets, args, args.len())
    }
}

/// Resolution, then binding.
pub open spec fn quote_spec<'a>(info: Describe, args: Seq<Arg<'a>>) -> Result<
    Seq<EncodedModel>,
    BindError,
> {
    match resolve_spec(info) {
        Err(e) => Err(e),
        Ok(ts) => bind_spec(ts, args),
    }
}

/// The size estimate of one argument.
pub open spec fn size_hint_spec<'a>(a: Arg<'a>) -> nat {
    match present_value(a) {
        None => 0,
        Some(Value::Bool(_)) => 1,
        Some(Value::Int(_)) => 8,
        Some(Value::Text(s)) => s@.len(),
        Some(Value::Str(s)) => s@.len(),
    }
}

/// The sum of the size estimates of the first `n` arguments.
pub open spec fn total_size<'a>(args: Seq<Arg<'a>>, n: nat) -> nat
    decreases n,
{
    if n == 0 || n > args.len() {
        0
    } else {
        total_size(args, (n - 1) as nat) + size_hint_spec(args[n - 1])
    }
}

/// `x`, or `usize::MAX` where `x` exceeds it.
pub open spec fn saturated(x: nat) -> nat {
    if x > usize::MAX {
        usize::MAX as nat
    } else {
        x
    }
}

/// An error in the resolution of a prefix is the error of every longer prefix.
proof fn lemma_resolve_err_sticks(
    params: Seq<TypeInfo>,
    domains: Seq<crate::describe::EnumDomain>,
    k: nat,
    n: nat,
)
    requires
        0 < k <= n <= params.len(),
        resolve_prefix(params, domains, k) is Err,
    ensures
        resolve_prefix(params, domains, n) == resolve_prefix(params, domains, k),
    decreases n - k,
{
    if n > k {
        lemma_resolve_err_sticks(params, domains, k, (n - 1) as nat);
    }
}

/// An error in the binding of a prefix is the error of every longer prefix.
proof fn lemma_bind_err_sticks<'a>(targets: Seq<BindType>, args: Seq<Arg<'a>>, k: nat, n: nat)
    requires
        0 < k <= n <= args.len(),
        n <= targets.len(),
        bind_prefix(targets, args, k) is Err,
    ensures
        bind_prefix(targets, args, n) == bind_prefix(targets, args, k),
    decreases n - k,
{
    if n > k {
        lemma_bind_err_sticks(targets, args, k, (n - 1) as nat);
    }
}

/// Every argument up to `n` converts, so binding the prefix succeeds.
proof fn lemma_bind_prefix_ok<'a>(targets: Seq<BindType>, args: Seq<Arg<'a>>, n: nat)
    requires
        n <= args.len(),
        n <= targets.len(),
        forall|j: int| 0 <= j < n ==> convert_spec(present_value(args[j]), targets[j]) is Some,
    ensures
        bind_prefix(targets, args, n) is Ok,
    decreases n,
{
    if n > 0 {
        lemma_bind_prefix_ok(targets, args, (n - 1) as nat);
    }
}

/// Arguments that hold the same values bind alike.
proof fn lemma_bind_prefix_same_values<'a>(
    targets: Seq<BindType>,
    a: Seq<Arg<'a>>,
    b: Seq<Arg<'a>>,
    n: nat,
)
    requires
        a.len() == b.len(),
        n <= a.len(),
        forall|j: int| 0 <= j < a.len() ==> present_value(a[j]) == present_value(b[j]),
    ensures
        bind_prefix(targets, a, n) == bind_prefix(targets, b, n),
        total_size(a, n) == total_size(b, n),
    decreases n,
{
    if n > 0 {
        lemma_bind_prefix_same_values(targets, a, b, (n - 1) as nat);
    }
}

/// Binding a number of arguments other than the number of parameters always fails
/// with a count mismatch, whatever the arguments hold.
pub proof fn lemma_arity<'a>(targets: Seq<BindType>, args: Seq<Arg<'a>>)
    requires
        targets.len() != args.len(),
        targets.len() <= usize::MAX,
        args.len() <= usize::MAX,
    ensures
        bind_spec(targets, args) == Err::<Seq<EncodedModel>, BindError>(
            BindError::ArgumentCountMismatch {
                expected: targets.len() as usize,
                actual: args.len() as usize,
            },
        ),
{
}

/// When several arguments fail to convert, the error names the first of them.
pub proof fn lemma_first_failure_reported<'a>(targets: Seq<BindType>, args: Seq<Arg<'a>>, i: int)
    requires
        targets.len() == args.len(),
        0 <= i < args.len(),
        convert_spec(present_value(args[i]), targets[i]) is None,
        forall|j: int| 0 <= j < i ==> convert_spec(present_value(args[j]), targets[j]) is Some,
    ensures
        bind_spec(targets, args) == Err::<Seq<EncodedModel>, BindError>(
            BindError::ArgumentConversionError {
                position: i as usize,
                source: kind_of(present_value(args[i])),
                target: targets[i],
            },
        ),
{
    lemma_bind_prefix_ok(targets, args, i as nat);
    lemma_bind_err_sticks(targets, args, (i + 1) as nat, args.len());
}

/// A bare value binds as its explicitly present optional form does: the same
/// values or the same error, and the same reservation.
pub proof fn lemma_optional_transparency<'a>(
    targets: Seq<BindType>,
    args: Seq<Arg<'a>>,
    k: int,
    v: Value<'a>,
)
    requires
        0 <= k < args.len(),
        args[k] == Arg::Plain(v),
    ensures
        bind_spec(targets, args) == bind_spec(targets, args.update(k, Arg::Optional(Some(v)))),
        total_size(args, args.len()) == total_size(
            args.update(k, Arg::Optional(Some(v))),
            args.len(),
        ),
{
    let b = args.update(k, Arg::Optional(Some(v)));
    assert forall|j: int| 0 <= j < args.len() implies present_value(args[j]) == present_value(
        b[j],
    ) by {}
    lemma_bind_prefix_same_values(targets, args, b, args.len());
}

/// A parameter with no native type whose name is a registered domain is bound as
/// text, and every text value binds against it, a variant of the domain or not.
pub proof fn lemma_enum_fallback(
    t: TypeInfo,
    domains: Seq<crate::describe::EnumDomain>,
    s: String,
)
    requires
        native_type_of(t.oid) is None,
        has_enum_domain(domains, t.name@),
    ensures
        resolve_type(t, domains) == Some(BindType::Text),
        convert_spec(present_value(Arg::Plain(Value::Text(s))), BindType::Text) == Some(
            EncodedModel::Text(s@),
        ),
{
}

/// Looks up the native binding type of a reported parameter type.
pub fn param_type_for_id(t: &TypeInfo) -> (r: Option<BindType>)
    ensures
        r == native_type_of(t.oid),
{
    match t.oid {
        16 => Some(BindType::Bool),
        21 => Some(BindType::Int2),
        23 => Some(BindType::Int4),
        20 => Some(BindType::Int8),
        25 | 1043 => Some(BindType::Text),
        _ => None,
    }
}

/// The type a parameter of an enumerated domain is bound as: text. The variants
/// are not checked here.
pub fn ephemeral_enum_ty(name: &str, variants: &[String]) -> (r: BindType)
    ensures
        r == BindType::Text,
{
    BindType::Text
}

/// Resolves the target type of every parameter of the statement.
pub fn resolve_param_types(info: &Describe) -> (r: Result<Vec<BindType>, BindError>)
    ensures
        match r {
            Ok(v) => resolve_spec(*info) == Ok::<Seq<BindType>, BindError>(v@),
            Err(e) => resolve_spec(*info) == Err::<Seq<BindType>, BindError>(e),
        },
{
    let params = match &info.parameters {
        Some(ParamInfo::Typed(ps)) => ps,
        _ => return Err(BindError::UnsupportedParameterMode),
    };
    let mut out: Vec<BindType> = Vec::new();
    let mut i: usize = 0;
    while i < params.len()
        invariant
            info.parameters == Some(ParamInfo::Typed(*params)),
            i <= params@.len(),
            resolve_prefix(params@, info.known_enum_tys@, i as nat) == Ok::<
                Seq<BindType>,
                BindError,
            >(out@),
        decreases params@.len() - i,
    {
        let p = &params[i];
        let t = match param_type_for_id(p) {
            Some(b) => b,
            None => match info.known_enum_ty(&p.name) {
                Some(k) => ephemeral_enum_ty(
                    p.name.as_str(),
                    info.known_enum_tys[k].variants.as_slice(),
                ),
                None => {
                    proof {
                        lemma_resolve_err_sticks(
                            params@,
                            info.known_enum_tys@,
                            (i + 1) as nat,
                            params@.len(),
                        );
                    }
                    return Err(
                        BindError::UnsupportedParameterType {
                            position: i,
                            type_info: p.duplicate(),
                        },
                    );
                },
            },
        };
        out.push(t);
        i = i + 1;
    }
    Ok(out)
}

/// The size estimate of one argument, read before any conversion.
fn size_hint(a: &Arg) -> (r: usize)
    ensures
        r == size_hint_spec(*a),
{
    match a {
        Arg::Plain(v) | Arg::Optional(Some(v)) => match v {
            Value::Bool(_) => 1,
            Value::Int(_) => 8,
            Value::Text(s) => s.as_str().unicode_len(),
            Value::Str(s) => s.unicode_len(),
        },
        Arg::Optional(None) => 0,
    }
}

/// Converts one argument into its target type. Text is bound by borrowing it from
/// the argument, owned or not, without a copy.
pub fn convert_arg<'a>(a: &'a Arg<'a>, t: BindType) -> (r: Option<Encoded<'a>>)
    ensures
        match r {
            Some(e) => convert_spec(present_value(*a), t) == Some(e@),
            None => convert_spec(present_value(*a), t) is None,
        },
{
    let v = match a {
        Arg::Plain(v) | Arg::Optional(Some(v)) => v,
        Arg::Optional(None) => return Some(Encoded::Null),
    };
    match v {
        Value::Bool(b) => if t == BindType::Bool {
            Some(Encoded::Bool(*b))
        } else {
            None
        },
        Value::Int(n) => {
            let n = *n;
            match t {
                BindType::Int2 => if -32768 <= n && n <= 32767 {
                    Some(Encoded::Int2(n as i16))
                } else {
                    None
                },
                BindType::Int4 => if -2147483648 <= n && n <= 2147483647 {
                    Some(Encoded::Int4(n as i32))
                } else {
                    None
                },
                BindType::Int8 => Some(Encoded::Int8(n)),
                _ => None,
            }
        },
        Value::Text(s) => if t == BindType::Text {
            Some(Encoded::Text(s.as_str()))
        } else {
            None
        },
        Value::Str(s) => if t == BindType::Text {
            Some(Encoded::Text(*s))
        } else {
            None
        },
    }
}

/// The source type of an argument.
fn kind_of_arg(a: &Arg) -> (r: ValueKind)
    ensures
        r == kind_of(present_value(*a)),
{
    match a {
        Arg::Plain(Value::Bool(_)) | Arg::Optional(Some(Value::Bool(_))) => ValueKind::Bool,
        Arg::Plain(Value::Int(_)) | Arg::Optional(Some(Value::Int(_))) => ValueKind::Int,
        Arg::Plain(Value::Text(_)) | Arg::Optional(Some(Value::Text(_))) => ValueKind::Text,
        Arg::Plain(Value::Str(_)) | Arg::Optional(Some(Value::Str(_))) => ValueKind::Text,
        Arg::Optional(None) => ValueKind::Null,
    }
}

/// Binds `args` against the resolved `targets`: checks the arity, reserves room for
/// all arguments, then converts and appends each in order, stopping at the first
/// failure.
pub fn bind_args<'a>(targets: &Vec<BindType>, args: &'a Vec<Arg<'a>>) -> (r: Result<
    Arguments<'a>,
    BindError,
>)
    ensures
        match r {
            Ok(buf) => bind_spec(targets@, args@) == Ok::<Seq<EncodedModel>, BindError>(
                encoded_views(buf.values@),
            ) && buf.reserved_count == args@.len() && buf.reserved_bytes == saturated(
                total_size(args@, args@.len()),
            ),
            Err(e) => bind_spec(targets@, args@) == Err::<Seq<EncodedModel>, BindError>(e),
        },
{
    if targets.len() != args.len() {
        return Err(BindError::ArgumentCountMismatch { expected: targets.len(), actual: args.len() });
    }
    let mut bytes: usize = 0;
    let mut i: usize = 0;
    while i < args.len()
        invariant
            i <= args@.len(),
            bytes == saturated(total_size(args@, i as nat)),
        decreases args@.len() - i,
    {
        bytes = bytes.saturating_add(size_hint(&args[i]));
        i = i + 1;
    }
    let mut values: Vec<Encoded<'a>> = Vec::with_capacity(args.len());
    assert(encoded_views(values@) =~= Seq::<EncodedModel>::empty());
    let mut j: usize = 0;
    while j < args.len()
        invariant
            targets@.len() == args@.len(),
            j <= args@.len(),
            bind_prefix(targets@, args@, j as nat) == Ok::<Seq<EncodedModel>, BindError>(
                encoded_views(values@),
            ),
        decreases args@.len() - j,
    {
        match convert_arg(&args[j], targets[j]) {
            Some(x) => {
                let ghost before = values@;
                values.push(x);
                assert(encoded_views(values@) =~= encoded_views(before).push(x@));
            },
            None => {
                proof {
                    lemma_bind_err_sticks(targets@, args@, (j + 1) as nat, args@.len());
                }
                return Err(
                    BindError::ArgumentConversionError {
                        position: j,
                        source: kind_of_arg(&args[j]),
                        target: targets[j],
                    },
                );
            },
        }
        j = j + 1;
    }
    Ok(Arguments { values, reserved_count: args.len(), reserved_bytes: bytes })
}

/// Resolves the statement's parameter types and binds `args` against them.
pub fn quote_args<'a>(info: &Describe, args: &'a Vec<Arg<'a>>) -> (r: Result<
    Arguments<'a>,
    BindError,
>)
    ensures
        match r {
            Ok(buf) => quote_spec(*info, args@) == Ok::<Seq<EncodedModel>, BindError>(
                encoded_views(buf.values@),
            ) && buf.reserved_count == args@.len() && buf.reserved_bytes == saturated(
                total_size(args@, args@.len()),
            ),
            Err(e) => quote_spec(*info, args@) == Err::<Seq<EncodedModel>, BindError>(e),
        },
{
    let targets = resolve_param_types(info)?;
    bind_args(&targets, args)
}

} // verus!
