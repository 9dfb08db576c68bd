//! The scalar-function registry: named descriptions with static features,
//! consulted case-insensitively, with a separate registry for arithmetic
//! operators whose result types depend on the argument types.

use vstd::prelude::*;
use vstd::string::StrSliceExecFns;
use vstd::string::StringSliceAdditionalSpecFns;
use vstd::string::StringExecFns;

use crate::arithmetic::div_supported;
use crate::arithmetic::minus_result_id;
use crate::arithmetic::minus_supported;
use crate::arithmetic::plus_result_id;
use crate::arithmetic::plus_supported;
use crate::arithmetic::ArithmeticDivFunction;
use crate::arithmetic::ArithmeticMinusFunction;
use crate::arithmetic::ArithmeticPlusFunction;
use crate::arithmetic::BinaryArithmeticFunction;
use crate::binary::DataValueBinaryOperator;
use crate::comparison::ComparisonLtFunction;
use crate::conditional::IfFunction;
use crate::data_type::DataType;
use crate::error::ErrorCode;
use crate::error::ErrorKind;
use crate::sign::SignFunction;

verus! {

/// The static features a registered function declares to the planner.
#[derive(Debug)]
pub struct FunctionFeatures {
    pub is_deterministic: bool,
    pub negative_function_name: Option<String>,
    pub is_bool_func: bool,
    pub maybe_monotonic: bool,
    pub num_arguments: usize,
}

/// Equality of feature records, comparing the negated-form name by value.
pub open spec fn features_eq(a: FunctionFeatures, b: FunctionFeatures) -> bool {
    &&& a.is_deterministic == b.is_deterministic
    &&& crate::data_type::tz_view(a.negative_function_name) == crate::data_type::tz_view(
        b.negative_function_name,
    )
    &&& a.is_bool_func == b.is_bool_func
    &&& a.maybe_monotonic == b.maybe_monotonic
    &&& a.num_arguments == b.num_arguments
}

impl FunctionFeatures {
    pub fn deterministic(self) -> (r: FunctionFeatures)
        ensures
            r == (FunctionFeatures { is_deterministic: true, ..self }),
    {
        FunctionFeatures { is_deterministic: true, ..self }
    }

    pub fn monotonicity(self) -> (r: FunctionFeatures)
        ensures
            r == (FunctionFeatures { maybe_monotonic: true, ..self }),
    {
        FunctionFeatures { maybe_monotonic: true, ..self }
    }

    pub fn bool_function(self) -> (r: FunctionFeatures)
        ensures
            r == (FunctionFeatures { is_bool_func: true, ..self }),
    {
        FunctionFeatures { is_bool_func: true, ..self }
    }

    pub fn num_arguments(self, n: usize) -> (r: FunctionFeatures)
        ensures
            r == (FunctionFeatures { num_arguments: n, ..self }),
    {
        FunctionFeatures { num_arguments: n, ..self }
    }

    pub fn negative_function(self, name: &str) -> (r: FunctionFeatures)
        ensures
            r.negative_function_name matches Some(s) && s@ == name@,
            r.is_deterministic == self.is_deterministic,
            r.is_bool_func == self.is_bool_func,
            r.maybe_monotonic == self.maybe_monotonic,
            r.num_arguments == self.num_arguments,
    {
        FunctionFeatures { negative_function_name: Option::Some(name.to_owned()), ..self }
    }

    /// A copy of the record, equal by value.
    pub fn duplicate(&self) -> (r: FunctionFeatures)
        ensures
            features_eq(r, *self),
    {
        FunctionFeatures {
            is_deterministic: self.is_deterministic,
            negative_function_name: match &self.negative_function_name {
                Option::Some(s) => Option::Some(s.clone()),
                Option::None => Option::None,
            },
            is_bool_func: self.is_bool_func,
            maybe_monotonic: self.maybe_monotonic,
            num_arguments: self.num_arguments,
        }
    }
}

impl Default for FunctionFeatures {
    fn default() -> (r: FunctionFeatures)
        ensures
            r == (FunctionFeatures {
                is_deterministic: false,
                negative_function_name: Option::None,
                is_bool_func: false,
                maybe_monotonic: false,
                num_arguments: 0,
            }),
    {
        FunctionFeatures {
            is_deterministic: false,
            negative_function_name: Option::None,
            is_bool_func: false,
            maybe_monotonic: false,
            num_arguments: 0,
        }
    }
}

/// Which constructor a plain registry entry dispatches to.
#[derive(Clone, Copy, PartialEq, Eq, Structural, Debug)]
pub enum FunctionKind {
    If,
    Sign,
    ComparisonLt,
}

/// Which constructor an arithmetic registry entry dispatches to.
#[derive(Clone, Copy, PartialEq, Eq, Structural, Debug)]
pub enum ArithmeticKind {
    Plus,
    Minus,
    Div,
}

#[derive(Debug)]
pub struct Function2Description {
    pub features: FunctionFeatures,
    pub kind: FunctionKind,
}

impl Function2Description {
    pub fn creator(kind: FunctionKind) -> (r: Function2Description)
        ensures
            r.kind == kind,
            r.features == (FunctionFeatures {
                is_deterministic: false,
                negative_function_name: Option::None,
                is_bool_func: false,
                maybe_monotonic: false,
                num_arguments: 0,
            }),
    {
        Function2Description { features: Default::default(), kind }
    }

    #[must_use]
    pub fn features(self, features: FunctionFeatures) -> (r: Function2Description)
        ensures
            r.kind == self.kind,
            r.features == features,
    {
        Function2Description { features, kind: self.kind }
    }
}

pub struct ArithmeticDescription {
    pub features: FunctionFeatures,
    pub kind: ArithmeticKind,
}

impl ArithmeticDescription {
    pub fn creator(kind: ArithmeticKind) -> (r: ArithmeticDescription)
        ensures
            r.kind == kind,
            r.features == (FunctionFeatures {
                is_deterministic: false,
                negative_function_name: Option::None,
                is_bool_func: false,
                maybe_monotonic: false,
                num_arguments: 0,
            }),
    {
        ArithmeticDescription { features: Default::default(), kind }
    }

    #[must_use]
    pub fn features(self, features: FunctionFeatures) -> (r: ArithmeticDescription)
        ensures
            r.kind == self.kind,
            r.features == features,
    {
        ArithmeticDescription { features, kind: self.kind }
    }
}

/// A resolved scalar function, ready to evaluate.
#[derive(Debug)]
pub enum Function2 {
    If(IfFunction),
    Sign(SignFunction),
    ComparisonLt(ComparisonLtFunction),
    BinaryArithmetic(BinaryArithmeticFunction),
}

/// ASCII case folding of one byte.
pub open spec fn lower_byte(b: u8) -> u8 {
    if 65 <= b <= 90 {
        (b + 32) as u8
    } else {
        b
    }
}

/// ASCII case folding of a byte string; registry lookup compares folded
/// names.
pub open spec fn lower_bytes(s: Seq<u8>) -> Seq<u8> {
    s.map_values(|b: u8| lower_byte(b))
}

/// The folded key under which a name is looked up.
fn lower_key(name: &str) -> (r: Vec<u8>)
    ensures
        r@ == lower_bytes(name.spec_bytes()),
{
    let bs = name.as_bytes_vec();
    let n = bs.len();
    let mut out: Vec<u8> = Vec::new();
    let mut i: usize = 0;
    while i < n
        invariant
            n == bs@.len(),
            i <= n,
            out@.len() == i,
            forall|t: int| 0 <= t < i ==> #[trigger] out@[t] == lower_byte(bs@[t]),
        decreases n - i,
    {
        let b = bs[i];
        if 65 <= b && b <= 90 {
            out.push(b + 32);
        } else {
            out.push(b);
        }
        i += 1;
    }
    proof {
        assert(out@ =~= lower_bytes(bs@));
    }
    out
}

/// Byte-string equality.
fn bytes_eq(a: &Vec<u8>, b: &Vec<u8>) -> (r: bool)
    ensures
        r == (a@ == b@),
{
    if a.len() != b.len() {
        proof {
            assert(a@.len() != b@.len());
        }
        return false;
    }
    let n = a.len();
    let mut i: usize = 0;
    while i < n
        invariant
            n == a@.len(),
            a@.len() == b@.len(),
            i <= n,
            forall|t: int| 0 <= t < i ==> #[trigger] a@[t] == b@[t],
        decreases n - i,
    {
        if a[i] != b[i] {
            return false;
        }
        i += 1;
    }
    proof {
        assert(a@ =~= b@);
    }
    true
}

/// The map view of a registry: folded key to description, later
/// registrations shadowing earlier ones.
pub open spec fn desc_map_of<D>(entries: Seq<(String, Vec<u8>, D)>) -> Map<Seq<u8>, D>
    decreases entries.len(),
{
    if entries.len() == 0 {
        Map::empty()
    } else {
        desc_map_of(entries.drop_last()).insert(entries.last().1@, entries.last().2)
    }
}

/// The last matching entry determines the map's value at a key.
proof fn lemma_desc_map_at<D>(entries: Seq<(String, Vec<u8>, D)>, key: Seq<u8>, i: int)
    requires
        0 <= i < entries.len(),
        entries[i].1@ == key,
        forall|j: int| i < j < entries.len() ==> (#[trigger] entries[j]).1@ != key,
    ensures
        desc_map_of(entries).contains_key(key),
        desc_map_of(entries)[key] == entries[i].2,
    decreases entries.len(),
{
    if i == entries.len() - 1 {
    } else {
        assert(entries.last().1@ != key);
        assert forall|j: int| i < j < entries.drop_last().len() implies (#[trigger] entries.drop_last()[j]).1@
            != key by {
            assert(entries.drop_last()[j] == entries[j]);
        }
        lemma_desc_map_at(entries.drop_last(), key, i);
    }
}

/// With no matching entry, the key is absent from the map.
proof fn lemma_desc_map_absent<D>(entries: Seq<(String, Vec<u8>, D)>, key: Seq<u8>)
    requires
        forall|j: int| 0 <= j < entries.len() ==> (#[trigger] entries[j]).1@ != key,
    ensures
        !desc_map_of(entries).contains_key(key),
    decreases entries.len(),
{
    if entries.len() > 0 {
        assert forall|j: int| 0 <= j < entries.drop_last().len() implies (#[trigger] entries.drop_last()[j]).1@
            != key by {
            assert(entries.drop_last()[j] == entries[j]);
        }
        lemma_desc_map_absent(entries.drop_last(), key);
        assert(entries.last().1@ != key);
    }
}

/// The registry: the by-name function descriptions and the arithmetic
/// operator descriptions, both looked up by folded name. It is populated
/// once at startup and read-only thereafter.
pub struct Function2Factory {
    pub case_insensitive_desc: Vec<(String, Vec<u8>, Function2Description)>,
    pub case_insensitive_arithmetic_desc: Vec<(String, Vec<u8>, ArithmeticDescription)>,
}

impl Function2Factory {
    /// The folded keys of the registry are the folded registered names.
    pub open spec fn wf(&self) -> bool {
        &&& forall|i: int|
            0 <= i < self.case_insensitive_desc@.len() ==> (
            #[trigger] self.case_insensitive_desc@[i]).1@ == lower_bytes(
                encode_name(self.case_insensitive_desc@[i].0@),
            )
        &&& forall|i: int|
            0 <= i < self.case_insensitive_arithmetic_desc@.len() ==> (
            #[trigger] self.case_insensitive_arithmetic_desc@[i]).1@ == lower_bytes(
                encode_name(self.case_insensitive_arithmetic_desc@[i].0@),
            )
    }

    /// The by-name registry as a map from folded key to description.
    pub open spec fn desc_map(&self) -> Map<Seq<u8>, Function2Description> {
        desc_map_of(self.case_insensitive_desc@)
    }

    /// The arithmetic registry as a map from folded key to description.
    pub open spec fn arith_map(&self) -> Map<Seq<u8>, ArithmeticDescription> {
        desc_map_of(self.case_insensitive_arithmetic_desc@)
    }

    /// An empty registry.
    pub fn create() -> (r: Function2Factory)
        ensures
            r.wf(),
            r.desc_map() == Map::<Seq<u8>, Function2Description>::empty(),
            r.arith_map() == Map::<Seq<u8>, ArithmeticDescription>::empty(),
    {
        Function2Factory {
            case_insensitive_desc: Vec::new(),
            case_insensitive_arithmetic_desc: Vec::new(),
        }
    }

    /// Registers a by-name function under the folded form of `name`.
    pub fn register(&mut self, name: &str, desc: Function2Description)
        requires
            old(self).wf(),
        ensures
            final (self).wf(),
            final (self).desc_map() == old(self).desc_map().insert(
                lower_bytes(name.spec_bytes()),
                desc,
            ),
            final (self).arith_map() == old(self).arith_map(),
    {
        let key = lower_key(name);
        self.case_insensitive_desc.push((name.to_owned(), key, desc));
        proof {
            assert(self.case_insensitive_desc@.drop_last() =~= old(self).case_insensitive_desc@);
        }
    }

    /// Registers an arithmetic operator under the folded form of `name`.
    pub fn register_arithmetic(&mut self, name: &str, desc: ArithmeticDescription)
        requires
            old(self).wf(),
        ensures
            final (self).wf(),
            final (self).arith_map() == old(self).arith_map().insert(
                lower_bytes(name.spec_bytes()),
                desc,
            ),
            final (self).desc_map() == old(self).desc_map(),
    {
        let key = lower_key(name);
        self.case_insensitive_arithmetic_desc.push((name.to_owned(), key, desc));
        proof {
            assert(self.case_insensitive_arithmetic_desc@.drop_last() =~= old(
                self,
            ).case_insensitive_arithmetic_desc@);
        }
    }

    /// Finds the last registered by-name description for a folded key.
    fn find_desc(&self, key: &Vec<u8>) -> (r: Option<&Function2Description>)
        ensures
            match r {
                Option::Some(d) => self.desc_map().contains_key(key@) && *d
                    == self.desc_map().index(key@),
                Option::None => !self.desc_map().contains_key(key@),
            },
    {
        let n = self.case_insensitive_desc.len();
        let mut i: usize = n;
        while i > 0
            invariant
                n == self.case_insensitive_desc@.len(),
                i <= n,
                forall|j: int|
                    i <= j < n ==> (#[trigger] self.case_insensitive_desc@[j]).1@ != key@,
            decreases i,
        {
            i -= 1;
            if bytes_eq(&self.case_insensitive_desc[i].1, key) {
                proof {
                    lemma_desc_map_at(self.case_insensitive_desc@, key@, i as int);
                }
                return Option::Some(&self.case_insensitive_desc[i].2);
            }
        }
        proof {
            lemma_desc_map_absent(self.case_insensitive_desc@, key@);
        }
        Option::None
    }

    /// Finds the last registered arithmetic description for a folded key.
    fn find_arith(&self, key: &Vec<u8>) -> (r: Option<&ArithmeticDescription>)
        ensures
            match r {
                Option::Some(d) => self.arith_map().contains_key(key@) && *d
                    == self.arith_map().index(key@),
                Option::None => !self.arith_map().contains_key(key@),
            },
    {
        let n = self.case_insensitive_arithmetic_desc.len();
        let mut i: usize = n;
        while i > 0
            invariant
                n == self.case_insensitive_arithmetic_desc@.len(),
                i <= n,
                forall|j: int|
                    i <= j < n ==> (#[trigger] self.case_insensitive_arithmetic_desc@[j]).1@
                        != key@,
            decreases i,
        {
            i -= 1;
            if bytes_eq(&self.case_insensitive_arithmetic_desc[i].1, key) {
                proof {
                    lemma_desc_map_at(self.case_insensitive_arithmetic_desc@, key@, i as int);
                }
                return Option::Some(&self.case_insensitive_arithmetic_desc[i].2);
            }
        }
        proof {
            lemma_desc_map_absent(self.case_insensitive_arithmetic_desc@, key@);
        }
        Option::None
    }

    /// Resolves a function by name, case-insensitively: the by-name
    /// registry first, then the arithmetic registry (which receives the
    /// argument types), else an unknown-function error naming the
    /// offender. An arithmetic operator resolved with an arity other than
    /// two fails fast rather than being constructed.
    pub fn get(&self, name: &str, args: &[DataType]) -> (r: Result<Function2, ErrorCode>)
        ensures
            ({
                let key = lower_bytes(name.spec_bytes());
                &&& (!self.desc_map().contains_key(key) && !self.arith_map().contains_key(key)
                    ==> (r matches Err(e) && e.kind == ErrorKind::UnknownFunction && e.message@
                    == "Unsupported Function: "@ + name@))
                &&& (self.desc_map().contains_key(key) ==> match self.desc_map()[key].kind {
                    FunctionKind::If => r matches Ok(f) && f matches Function2::If(g)
                        && g.display_name@ == name@,
                    FunctionKind::Sign => r matches Ok(f) && f matches Function2::Sign(g)
                        && g.display_name@ == name@,
                    FunctionKind::ComparisonLt => r matches Ok(f) && f matches
                        Function2::ComparisonLt(_),
                })
                &&& (!self.desc_map().contains_key(key) && self.arith_map().contains_key(key)
                    && args@.len() == 2 ==> {
                    let lt = args@[0].base.spec_id();
                    let rt = args@[1].base.spec_id();
                    match self.arith_map()[key].kind {
                        ArithmeticKind::Plus => {
                            &&& (plus_supported(lt, rt) ==> (r matches Ok(f)
                                && f matches Function2::BinaryArithmetic(g) && g.op
                                == DataValueBinaryOperator::Plus && g.result_type.base.spec_id()
                                == plus_result_id(lt, rt)))
                            &&& (!plus_supported(lt, rt) ==> (r matches Err(e) && e.kind
                                == ErrorKind::BadDataValueType))
                        },
                        ArithmeticKind::Minus => {
                            &&& (minus_supported(lt, rt) ==> (r matches Ok(f)
                                && f matches Function2::BinaryArithmetic(g) && g.op
                                == DataValueBinaryOperator::Minus && g.result_type.base.spec_id()
                                == minus_result_id(lt, rt)))
                            &&& (!minus_supported(lt, rt) ==> (r matches Err(e) && e.kind
                                == ErrorKind::BadDataValueType))
                        },
                        ArithmeticKind::Div => {
                            &&& (div_supported(lt, rt) ==> (r matches Ok(f)
                                && f matches Function2::BinaryArithmetic(g) && g.op
                                == DataValueBinaryOperator::Div))
                            &&& (!div_supported(lt, rt) ==> (r matches Err(e) && e.kind
                                == ErrorKind::BadDataValueType))
                        },
                    }
                })
                &&& (!self.desc_map().contains_key(key) && self.arith_map().contains_key(key)
                    && args@.len() != 2 ==> (r matches Err(e) && e.kind
                    == ErrorKind::BadDataValueType))
            }),
    {
        let key = lower_key(name);
        match self.find_desc(&key) {
            Option::Some(desc) => {
                match desc.kind {
                    FunctionKind::If => {
                        match IfFunction::try_create(name) {
                            Ok(f) => Ok(Function2::If(f)),
                            Err(e) => Err(e),
                        }
                    },
                    FunctionKind::Sign => {
                        match SignFunction::try_create(name) {
                            Ok(f) => Ok(Function2::Sign(f)),
                            Err(e) => Err(e),
                        }
                    },
                    FunctionKind::ComparisonLt => {
                        match ComparisonLtFunction::try_create_func(name) {
                            Ok(f) => Ok(Function2::ComparisonLt(f)),
                            Err(e) => Err(e),
                        }
                    },
                }
            },
            Option::None => {
                match self.find_arith(&key) {
                    Option::Some(desc) => {
                        if args.len() != 2 {
                            return Err(
                                ErrorCode::new(
                                    ErrorKind::BadDataValueType,
                                    String::from_str(
                                        "An arithmetic operator takes exactly two arguments",
                                    ),
                                ),
                            );
                        }
                        let created = match desc.kind {
                            ArithmeticKind::Plus => ArithmeticPlusFunction::try_create_func(
                                name,
                                args,
                            ),
                            ArithmeticKind::Minus => ArithmeticMinusFunction::try_create_func(
                                name,
                                args,
                            ),
                            ArithmeticKind::Div => ArithmeticDivFunction::try_create_func(
                                name,
                                args,
                            ),
                        };
                        match created {
                            Ok(f) => Ok(Function2::BinaryArithmetic(f)),
                            Err(e) => Err(e),
                        }
                    },
                    Option::None => {
                        let mut m = String::from_str("Unsupported Function: ");
                        m.append(name);
                        Err(ErrorCode::new(ErrorKind::UnknownFunction, m))
                    },
                }
            },
        }
    }

    /// The declared features of a registered function, by folded name.
    pub fn get_features(&self, name: &str) -> (r: Result<FunctionFeatures, ErrorCode>)
        ensures
            ({
                let key = lower_bytes(name.spec_bytes());
                match r {
                    Ok(f) => (self.desc_map().contains_key(key) && features_eq(
                        f,
                        self.desc_map()[key].features,
                    )) || (!self.desc_map().contains_key(key) && self.arith_map().contains_key(key)
                        && features_eq(f, self.arith_map()[key].features)),
                    Err(e) => !self.desc_map().contains_key(key)
                        && !self.arith_map().contains_key(key) && e.kind
                        == ErrorKind::UnknownFunction && e.message@ == "Unsupported Function: "@
                        + name@,
                }
            }),
    {
        let key = lower_key(name);
        match self.find_desc(&key) {
            Option::Some(desc) => Ok(desc.features.duplicate()),
            Option::None => {
                match self.find_arith(&key) {
                    Option::Some(desc) => Ok(desc.features.duplicate()),
                    Option::None => {
                        let mut m = String::from_str("Unsupported Function: ");
                        m.append(name);
                        Err(ErrorCode::new(ErrorKind::UnknownFunction, m))
                    },
                }
            },
        }
    }

    /// Whether a name is registered in either registry.
    pub fn check(&self, name: &str) -> (r: bool)
        ensures
            r == (self.desc_map().contains_key(lower_bytes(name.spec_bytes()))
                || self.arith_map().contains_key(lower_bytes(name.spec_bytes()))),
    {
        let key = lower_key(name);
        if matches!(self.find_desc(&key), Option::Some(_)) {
            return true;
        }
        matches!(self.find_arith(&key), Option::Some(_))
    }

    /// The registered names, as they were registered: the by-name registry
    /// first, then the arithmetic registry.
    pub fn registered_names(&self) -> (r: Vec<String>)
        ensures
            r@.len() == self.case_insensitive_desc@.len()
                + self.case_insensitive_arithmetic_desc@.len(),
            forall|i: int|
                0 <= i < self.case_insensitive_desc@.len() ==> (#[trigger] r@[i])@
                    == self.case_insensitive_desc@[i].0@,
            forall|i: int|
                0 <= i < self.case_insensitive_arithmetic_desc@.len() ==> (#[trigger] r@[i
                    + self.case_insensitive_desc@.len()])@
                    == self.case_insensitive_arithmetic_desc@[i].0@,
    {
        let mut out: Vec<String> = Vec::new();
        let n = self.case_insensitive_desc.len();
        let mut i: usize = 0;
        while i < n
            invariant
                n == self.case_insensitive_desc@.len(),
                i <= n,
                out@.len() == i,
                forall|t: int|
                    0 <= t < i ==> (#[trigger] out@[t])@ == self.case_insensitive_desc@[t].0@,
            decreases n - i,
        {
            out.push(self.case_insensitive_desc[i].0.clone());
            i += 1;
        }
        let m = self.case_insensitive_arithmetic_desc.len();
        let mut k: usize = 0;
        while k < m
            invariant
                n == self.case_insensitive_desc@.len(),
                m == self.case_insensitive_arithmetic_desc@.len(),
                k <= m,
                out@.len() == n + k,
                forall|t: int|
                    0 <= t < n ==> (#[trigger] out@[t])@ == self.case_insensitive_desc@[t].0@,
                forall|t: int|
                    0 <= t < k ==> (#[trigger] out@[t + n])@
                        == self.case_insensitive_arithmetic_desc@[t].0@,
            decreases m - k,
        {
            out.push(self.case_insensitive_arithmetic_desc[k].0.clone());
            k += 1;
        }
        out
    }

    /// A registry populated with this crate's built-in functions: the
    /// conditional, the sign function and the less-than comparison by
    /// name, and the three arithmetic operators by symbol.
    pub fn instance() -> (r: Function2Factory)
        ensures
            r.wf(),
            r.desc_map().contains_key(lower_bytes("if".spec_bytes())),
            r.desc_map()[lower_bytes("if".spec_bytes())].kind == FunctionKind::If,
            r.desc_map().contains_key(lower_bytes("sign".spec_bytes())),
            r.desc_map()[lower_bytes("sign".spec_bytes())].kind == FunctionKind::Sign,
            r.desc_map().contains_key(lower_bytes("<".spec_bytes())),
            r.desc_map()[lower_bytes("<".spec_bytes())].kind == FunctionKind::ComparisonLt,
            r.arith_map().contains_key(lower_bytes("+".spec_bytes())),
            r.arith_map()[lower_bytes("+".spec_bytes())].kind == ArithmeticKind::Plus,
            r.arith_map().contains_key(lower_bytes("-".spec_bytes())),
            r.arith_map()[lower_bytes("-".spec_bytes())].kind == ArithmeticKind::Minus,
            r.arith_map().contains_key(lower_bytes("/".spec_bytes())),
            r.arith_map()[lower_bytes("/".spec_bytes())].kind == ArithmeticKind::Div,
    {
        let mut factory = Function2Factory::create();
        factory.register("if", IfFunction::desc());
        factory.register("sign", SignFunction::desc());
        factory.register("<", ComparisonLtFunction::desc());
        factory.register_arithmetic("+", ArithmeticPlusFunction::desc());
        factory.register_arithmetic("-", ArithmeticMinusFunction::desc());
        factory.register_arithmetic("/", ArithmeticDivFunction::desc());
        proof {
            reveal_strlit("if");
            reveal_strlit("sign");
            reveal_strlit("<");
            reveal_strlit("+");
            reveal_strlit("-");
            reveal_strlit("/");
            lemma_ascii_name_bytes("if"@);
            lemma_ascii_name_bytes("sign"@);
            lemma_ascii_name_bytes("<"@);
            lemma_ascii_name_bytes("+"@);
            lemma_ascii_name_bytes("-"@);
            lemma_ascii_name_bytes("/"@);
            assert(lower_bytes("if".spec_bytes()).len() == 2);
            assert(lower_bytes("sign".spec_bytes()).len() == 4);
            assert(lower_bytes("<".spec_bytes()).len() == 1);
            assert(lower_bytes("+".spec_bytes())[0] == 43u8);
            assert(lower_bytes("-".spec_bytes())[0] == 45u8);
            assert(lower_bytes("/".spec_bytes())[0] == 47u8);
        }
        factory
    }
}

/// A name's bytes, as `str::as_bytes` yields them.
pub open spec fn encode_name(s: Seq<char>) -> Seq<u8> {
    vstd::utf8::encode_utf8(s)
}

/// An ASCII name's bytes are its characters, one byte each.
proof fn lemma_ascii_name_bytes(s: Seq<char>)
    requires
        vstd::utf8::is_ascii_chars(s),
    ensures
        encode_name(s).len() == s.len(),
        forall|i: int|
            #![trigger encode_name(s)[i]]
            0 <= i < s.len() ==> encode_name(s)[i] == s[i] as u8,
{
    vstd::utf8::is_ascii_chars_encode_utf8(s);
}

} // verus!
