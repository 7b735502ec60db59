use std::sync::Arc;
use vstd::prelude::*;

verus! {

/// A type as the driver reports it: its numeric identifier and its declared name.
#[derive(Debug)]
pub struct TypeInfo {
    pub oid: u32,
    pub name: String,
}

/// One result column of a statement.
#[derive(Debug)]
pub struct Column {
    pub ordinal: usize,
    pub name: String,
    pub type_info: TypeInfo,
}

/// What the driver knows of a statement's parameters.
#[derive(Debug)]
pub enum ParamInfo {
    /// One reported type per parameter, in positional order.
    Typed(Vec<TypeInfo>),
    /// The number of parameters, with no type for any of them.
    CountOnly(usize),
}

/// A named enumerated domain and its variants, shared between descriptors.
#[derive(Debug)]
pub struct EnumDomain {
    pub name: String,
    pub variants: Arc<Vec<String>>,
}

/// The shape of one prepared statement: its columns, its parameters and the
/// enumerated domains it may reference.
#[derive(Debug)]
pub struct Describe {
    pub columns: Vec<Column>,
    pub parameters: Option<ParamInfo>,
    pub nullable: Vec<Option<bool>>,
    pub known_enum_tys: Vec<EnumDomain>,
}

/// Whether a domain of the given name is registered.
pub open spec fn has_enum_domain(domains: Seq<EnumDomain>, name: Seq<char>) -> bool {
    exists|i: int| 0 <= i < domains.len() && (#[trigger] domains[i]).name@ == name
}

impl Describe {
    /// Domain names are unique.
    pub open spec fn wf(&self) -> bool {
        forall|i: int, j: int|
            0 <= i < j < self.known_enum_tys@.len() ==> (#[trigger] self.known_enum_tys@[i]).name@
                != (#[trigger] self.known_enum_tys@[j]).name@
    }

    /// Nullability of column `i`; unknown past the end.
    pub open spec fn nullable_at(&self, i: int) -> Option<bool> {
        if 0 <= i < self.nullable@.len() {
            self.nullable@[i]
        } else {
            None
        }
    }

    /// Gets all columns in this statement.
    pub fn columns(&self) -> (r: &[Column])
        ensures
            r@ == self.columns@,
    {
        self.columns.as_slice()
    }

    /// Gets the column information at `index`.
    pub fn column(&self, index: usize) -> (r: &Column)
        requires
            index < self.columns@.len(),
        ensures
            *r == self.columns@[index as int],
    {
        &self.columns[index]
    }

    /// Gets the available information for parameters in this statement.
    pub fn parameters(&self) -> (r: Option<&ParamInfo>)
        ensures
            r.is_some() == self.parameters.is_some(),
            r.is_some() ==> *r.unwrap() == self.parameters.unwrap(),
    {
        match &self.parameters {
            Some(p) => Some(p),
            None => None,
        }
    }

    /// Gets whether a column may be `NULL`, if this information is available.
    pub fn nullable(&self, column: usize) -> (r: Option<bool>)
        ensures
            r == self.nullable_at(column as int),
    {
        if column < self.nullable.len() {
            self.nullable[column]
        } else {
            None
        }
    }

    /// The position of the registered domain called `name`, if there is one.
    pub fn known_enum_ty(&self, name: &String) -> (r: Option<usize>)
        ensures
            r.is_some() == has_enum_domain(self.known_enum_tys@, name@),
            r matches Some(i) ==> i < self.known_enum_tys@.len() && self.known_enum_tys@[i as int].name@
                == name@,
    {
        let mut i: usize = 0;
        while i < self.known_enum_tys.len()
            invariant
                i <= self.known_enum_tys@.len(),
                forall|j: int| 0 <= j < i ==> (#[trigger] self.known_enum_tys@[j]).name@ != name@,
            decreases self.known_enum_tys@.len() - i,
        {
            if self.known_enum_tys[i].name == *name {
                return Some(i);
            }
            i = i + 1;
        }
        None
    }
}

/// A backend-agnostic type.
#[derive(Clone, Copy, PartialEq, Eq, Structural, Debug)]
pub enum AnyTypeInfo {
    Bool,
    SmallInt,
    Integer,
    BigInt,
    Text,
    Blob,
}

/// A column in backend-agnostic form.
#[derive(Debug)]
pub struct AnyColumn {
    pub ordinal: usize,
    pub name: String,
    pub type_info: AnyTypeInfo,
}

/// Parameter information in backend-agnostic form.
#[derive(Debug)]
pub enum AnyParamInfo {
    Typed(Vec<AnyTypeInfo>),
    CountOnly(usize),
}

/// A statement description in backend-agnostic form; it has no enumerated domains.
#[derive(Debug)]
pub struct AnyDescribe {
    pub columns: Vec<AnyColumn>,
    pub parameters: Option<AnyParamInfo>,
    pub nullable: Vec<Option<bool>>,
}

/// Why a description has no backend-agnostic form.
#[derive(Debug)]
pub enum NormalizeError {
    UnrepresentableColumnType { position: usize, type_info: TypeInfo },
    UnrepresentableParameterType { position: usize, type_info: TypeInfo },
}

/// The agnostic form of a reported type, by type identifier.
pub open spec fn any_type_of(oid: u32) -> Option<AnyTypeInfo> {
    if oid == 16 {
        Some(AnyTypeInfo::Bool)
    } else if oid == 21 {
        Some(AnyTypeInfo::SmallInt)
    } else if oid == 23 {
        Some(AnyTypeInfo::Integer)
    } else if oid == 20 {
        Some(AnyTypeInfo::BigInt)
    } else if oid == 25 || oid == 1043 {
        Some(AnyTypeInfo::Text)
    } else if oid == 17 {
        Some(AnyTypeInfo::Blob)
    } else {
        None
    }
}

/// Conversion of the first `n` columns, stopping at the first unrepresentable one.
pub open spec fn any_columns_prefix(cols: Seq<Column>, n: nat) -> Result<Seq<AnyColumn>, NormalizeError>
    decreases n,
{
    if n == 0 || n > cols.len() {
        Ok(Seq::empty())
    } else {
        match any_columns_prefix(cols, (n - 1) as nat) {
            Err(e) => Err(e),
            Ok(s) => match any_type_of(cols[n - 1].type_info.oid) {
                Some(t) => Ok(
                    s.push(AnyColumn { ordinal: cols[n - 1].ordinal, name: cols[n - 1].name, type_info: t }),
                ),
                None => Err(
                    NormalizeError::UnrepresentableColumnType {
                        position: (n - 1) as usize,
                        type_info: cols[n - 1].type_info,
                    },
                ),
            },
        }
    }
}

/// Conversion of the first `n` parameter types, stopping at the first unrepresentable one.
pub open spec fn any_params_prefix(ps: Seq<TypeInfo>, n: nat) -> Result<Seq<AnyTypeInfo>, NormalizeError>
    decreases n,
{
    if n == 0 || n > ps.len() {
        Ok(Seq::empty())
    } else {
        match any_params_prefix(ps, (n - 1) as nat) {
            Err(e) => Err(e),
            Ok(s) => match any_type_of(ps[n - 1].oid) {
                Some(t) => Ok(s.push(t)),
                None => Err(
                    NormalizeError::UnrepresentableParameterType {
                        position: (n - 1) as usize,
                        type_info: ps[n - 1],
                    },
                ),
            },
        }
    }
}

/// The failure of normalizing `d`, if any: the first unrepresentable column, else
/// the first unrepresentable parameter type.
pub open spec fn normalize_failure(d: Describe) -> Option<NormalizeError> {
    match any_columns_prefix(d.columns@, d.columns@.len()) {
        Err(e) => Some(e),
        Ok(_) => match d.parameters {
            Some(ParamInfo::Typed(ps)) => match any_params_prefix(ps@, ps@.len()) {
                Err(e) => Some(e),
                Ok(_) => None,
            },
            _ => None,
        },
    }
}

/// An error in the conversion of a prefix of the columns is the error of every
/// longer prefix.
proof fn lemma_columns_err_sticks(cols: Seq<Column>, k: nat, n: nat)
    requires
        0 < k <= n <= cols.len(),
        any_columns_prefix(cols, k) is Err,
    ensures
        any_columns_prefix(cols, n) == any_columns_prefix(cols, k),
    decreases n - k,
{
    if n > k {
        lemma_columns_err_sticks(cols, k, (n - 1) as nat);
    }
}

/// An error in the conversion of a prefix of the parameter types is the error of
/// every longer prefix.
proof fn lemma_params_err_sticks(ps: Seq<TypeInfo>, k: nat, n: nat)
    requires
        0 < k <= n <= ps.len(),
        any_params_prefix(ps, k) is Err,
    ensures
        any_params_prefix(ps, n) == any_params_prefix(ps, k),
    decreases n - k,
{
    if n > k {
        lemma_params_err_sticks(ps, k, (n - 1) as nat);
    }
}

/// An error from converting the first `n` columns names an unrepresentable column
/// among them.
proof fn lemma_columns_err_shape(cols: Seq<Column>, n: nat)
    requires
        n <= cols.len(),
        cols.len() <= usize::MAX,
    ensures
        any_columns_prefix(cols, n) matches Err(NormalizeError::UnrepresentableColumnType {
            position,
            type_info,
        }) ==> position < n && type_info == cols[position as int].type_info && any_type_of(
            type_info.oid,
        ) is None,
        !(any_columns_prefix(cols, n) matches Err(NormalizeError::UnrepresentableParameterType { .. })),
    decreases n,
{
    if n > 0 {
        lemma_columns_err_shape(cols, (n - 1) as nat);
    }
}

/// Normalizing a description with an unrepresentable column yields no partial
/// result: it fails, naming one unrepresentable column, no later than the given one.
pub proof fn lemma_normalize_all_or_nothing(d: Describe, i: int)
    requires
        0 <= i < d.columns@.len(),
        d.columns@.len() <= usize::MAX,
        any_type_of(d.columns@[i].type_info.oid) is None,
    ensures
        normalize_failure(d) matches Some(NormalizeError::UnrepresentableColumnType {
            position,
            type_info,
        }) && position <= i && type_info == d.columns@[position as int].type_info && any_type_of(
            type_info.oid,
        ) is None,
{
    let cols = d.columns@;
    lemma_columns_err_shape(cols, (i + 1) as nat);
    lemma_columns_err_sticks(cols, (i + 1) as nat, cols.len());
}

impl TypeInfo {
    /// A copy of this type.
    pub fn duplicate(&self) -> (r: TypeInfo)
        ensures
            r == *self,
    {
        TypeInfo { oid: self.oid, name: self.name.clone() }
    }
}

/// Looks up the agnostic form of a reported type.
pub fn any_type_info(t: &TypeInfo) -> (r: Option<AnyTypeInfo>)
    ensures
        r == any_type_of(t.oid),
{
    match t.oid {
        16 => Some(AnyTypeInfo::Bool),
        21 => Some(AnyTypeInfo::SmallInt),
        23 => Some(AnyTypeInfo::Integer),
        20 => Some(AnyTypeInfo::BigInt),
        25 | 1043 => Some(AnyTypeInfo::Text),
        17 => Some(AnyTypeInfo::Blob),
        _ => None,
    }
}

/// The agnostic form of every column, or the first column that has none.
fn any_columns(cols: &Vec<Column>) -> (r: Result<Vec<AnyColumn>, NormalizeError>)
    ensures
        match r {
            Ok(v) => any_columns_prefix(cols@, cols@.len()) == Ok::<Seq<AnyColumn>, NormalizeError>(v@),
            Err(e) => any_columns_prefix(cols@, cols@.len()) == Err::<Seq<AnyColumn>, NormalizeError>(e),
        },
{
    let mut out: Vec<AnyColumn> = Vec::new();
    let mut i: usize = 0;
    while i < cols.len()
        invariant
            i <= cols@.len(),
            any_columns_prefix(cols@, i as nat) == Ok::<Seq<AnyColumn>, NormalizeError>(out@),
        decreases cols@.len() - i,
    {
        let c = &cols[i];
        match any_type_info(&c.type_info) {
            Some(t) => out.push(AnyColumn { ordinal: c.ordinal, name: c.name.clone(), type_info: t }),
            None => {
                proof {
                    lemma_columns_err_sticks(cols@, (i + 1) as nat, cols@.len());
                }
                return Err(
                    NormalizeError::UnrepresentableColumnType {
                        position: i,
                        type_info: c.type_info.duplicate(),
                    },
                );
            },
        }
        i = i + 1;
    }
    Ok(out)
}

/// The agnostic form of every parameter type, or the first that has none.
fn any_params(ps: &Vec<TypeInfo>) -> (r: Result<Vec<AnyTypeInfo>, NormalizeError>)
    ensures
        match r {
            Ok(v) => any_params_prefix(ps@, ps@.len()) == Ok::<Seq<AnyTypeInfo>, NormalizeError>(v@),
            Err(e) => any_params_prefix(ps@, ps@.len()) == Err::<Seq<AnyTypeInfo>, NormalizeError>(e),
        },
{
    let mut out: Vec<AnyTypeInfo> = Vec::new();
    let mut i: usize = 0;
    while i < ps.len()
        invariant
            i <= ps@.len(),
            any_params_prefix(ps@, i as nat) == Ok::<Seq<AnyTypeInfo>, NormalizeError>(out@),
        decreases ps@.len() - i,
    {
        match any_type_info(&ps[i]) {
            Some(t) => out.push(t),
            None => {
                proof {
                    lemma_params_err_sticks(ps@, (i + 1) as nat, ps@.len());
                }
                return Err(
                    NormalizeError::UnrepresentableParameterType {
                        position: i,
                        type_info: ps[i].duplicate(),
                    },
                );
            },
        }
        i = i + 1;
    }
    Ok(out)
}

impl Describe {
    /// Converts this description into backend-agnostic form: every column and every
    /// parameter type must have one, else the first that has none is named.
    /// Nullability passes through; enumerated domains are not carried.
    pub fn try_into_any(self) -> (r: Result<AnyDescribe, NormalizeError>)
        ensures
            match r {
                Ok(a) => {
                    &&& normalize_failure(self) is None
                    &&& any_columns_prefix(self.columns@, self.columns@.len()) == Ok::<
                        Seq<AnyColumn>,
                        NormalizeError,
                    >(a.columns@)
                    &&& a.nullable@ == self.nullable@
                    &&& match self.parameters {
                        None => a.parameters is None,
                        Some(ParamInfo::CountOnly(n)) => a.parameters matches Some(
                            AnyParamInfo::CountOnly(m),
                        ) && m == n,
                        Some(ParamInfo::Typed(ps)) => a.parameters matches Some(
                            AnyParamInfo::Typed(v),
                        ) && any_params_prefix(ps@, ps@.len()) == Ok::<
                            Seq<AnyTypeInfo>,
                            NormalizeError,
                        >(v@),
                    }
                },
                Err(e) => normalize_failure(self) == Some(e),
            },
    {
        let columns = any_columns(&self.columns)?;
        let parameters = match &self.parameters {
            Some(ParamInfo::Typed(ps)) => Some(AnyParamInfo::Typed(any_params(ps)?)),
            Some(ParamInfo::CountOnly(n)) => Some(AnyParamInfo::CountOnly(*n)),
            None => None,
        };
        Ok(AnyDescribe { columns, parameters, nullable: self.nullable })
    }
}

} // verus!
