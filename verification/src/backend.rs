//! Bookkeeping of the IR backend that does not touch LLVM: which generic
//! stands for which type, the instantiated functions ("function keys") and
//! where code generation currently is.

use vstd::prelude::*;
use vstd::string::*;
use crate::mir::BlockId;
use crate::types::FunctionId;
use crate::vec_map::VecMap;

verus! {

/// Identifies one instantiation of a function (a function key).
#[derive(Debug, Clone, Copy, PartialEq, Eq, Structural)]
pub struct FunctionKeyId(pub usize);

/// The block id that names no block; a fresh cursor points at it.
pub open spec fn spec_error_block() -> BlockId {
    BlockId(usize::MAX)
}

/// The placeholder block id.
pub fn error_block() -> (res: BlockId)
    ensures
        res == spec_error_block(),
{
    BlockId(usize::MAX)
}

// ---------------------------------------------------------------------------
// Generic substitution
// ---------------------------------------------------------------------------

/// Maps generic parameters to the types they are instantiated with.
pub struct GenericSubstitute {
    pub store: VecMap<usize>,
}

/// What pairing `generics[..n]` with `type_args[..n]` gives `id`: the type of
/// the last pair whose generic is `id`.
pub open spec fn zip_lookup(generics: Seq<usize>, type_args: Seq<usize>, n: int, id: usize) -> Option<usize>
    decreases n,
{
    if n <= 0 {
        None
    } else if generics[n - 1] == id {
        Some(type_args[n - 1])
    } else {
        zip_lookup(generics, type_args, n - 1, id)
    }
}

pub open spec fn min_len(a: int, b: int) -> int {
    if a <= b {
        a
    } else {
        b
    }
}

impl GenericSubstitute {
    /// The type that generic `id` stands for.
    pub open spec fn spec_resolve(&self, id: usize) -> Option<usize> {
        self.store.spec_get(id as int)
    }

    /// Pairs `generics` with `type_args` position by position; the shorter
    /// list decides how many pairs there are.
    pub fn new(generics: &[usize], type_args: &[usize]) -> (res: GenericSubstitute)
        ensures
            forall|id: usize|
                #[trigger] res.spec_resolve(id) == zip_lookup(
                    generics@,
                    type_args@,
                    min_len(generics@.len() as int, type_args@.len() as int),
                    id,
                ),
    {
        let mut this = GenericSubstitute { store: VecMap::new() };
        let n = if generics.len() <= type_args.len() {
            generics.len()
        } else {
            type_args.len()
        };
        let mut i: usize = 0;
        while i < n
            invariant
                n == min_len(generics@.len() as int, type_args@.len() as int),
                i <= n,
                forall|id: usize| #[trigger] this.spec_resolve(id) == zip_lookup(generics@, type_args@, i as int, id),
            decreases n - i,
        {
            this.insert(generics[i], type_args[i]);
            i = i + 1;
        }
        this
    }

    pub fn insert(&mut self, id: usize, ty: usize)
        ensures
            final(self).spec_resolve(id) == Some(ty),
            forall|other: usize| other != id ==> #[trigger] final(self).spec_resolve(other) == old(self).spec_resolve(other),
    {
        self.store.insert(id, ty);
        assert forall|other: usize| other != id implies #[trigger] self.spec_resolve(other) == old(self).spec_resolve(other) by {
            assert(self.store.spec_get(other as int) == old(self).store.spec_get(other as int));
        }
    }

    pub fn resolve(&self, id: usize) -> (res: Option<usize>)
        ensures
            res == self.spec_resolve(id),
    {
        match self.store.get(id) {
            Some(ty) => Some(*ty),
            None => None,
        }
    }
}

// ---------------------------------------------------------------------------
// The code generation cursor
// ---------------------------------------------------------------------------

/// The function instance and block that code generation is emitting into.
#[derive(Debug, Clone, Copy, PartialEq, Eq, Structural)]
pub struct Current {
    pub function_key: FunctionKeyId,
    pub block: BlockId,
}

impl Current {
    /// A cursor in `global`, pointing at no block yet.
    pub fn start(global: FunctionKeyId) -> (res: Current)
        ensures
            res.function_key == global,
            res.block == spec_error_block(),
    {
        Current { function_key: global, block: error_block() }
    }

    pub fn function_key(&self) -> (res: FunctionKeyId)
        ensures
            res == self.function_key,
    {
        self.function_key
    }

    pub fn set_function_key(&mut self, id: FunctionKeyId)
        ensures
            final(self).function_key == id,
            final(self).block == old(self).block,
    {
        self.function_key = id;
    }

    pub fn block(&self) -> (res: BlockId)
        ensures
            res == self.block,
    {
        self.block
    }

    pub fn set_block(&mut self, id: BlockId)
        ensures
            final(self).block == id,
            final(self).function_key == old(self).function_key,
    {
        self.block = id;
    }
}


// ---------------------------------------------------------------------------
// Function keys
// ---------------------------------------------------------------------------

/// A function together with the type arguments it is instantiated with.
#[derive(Debug, Clone, PartialEq, Eq, Hash)]
pub struct FunctionKey {
    pub id: FunctionId,
    pub type_args: Vec<usize>,
}

impl View for FunctionKey {
    type V = (usize, Seq<usize>);

    open spec fn view(&self) -> (usize, Seq<usize>) {
        (self.id.0, self.type_args@)
    }
}

impl FunctionKey {
    pub fn new(id: FunctionId, type_args: Vec<usize>) -> (res: FunctionKey)
        ensures
            res.id == id,
            res.type_args@ == type_args@,
    {
        FunctionKey { id, type_args }
    }

    pub fn function_id(&self) -> (res: FunctionId)
        ensures
            res == self.id,
    {
        self.id
    }

    pub fn type_args(&self) -> (res: &Vec<usize>)
        ensures
            res@ == self.type_args@,
    {
        &self.type_args
    }

    /// Whether the two keys name the same instantiation.
    pub fn same_key(&self, other: &FunctionKey) -> (res: bool)
        ensures
            res == (self@ == other@),
    {
        if self.id.0 != other.id.0 || self.type_args.len() != other.type_args.len() {
            return false;
        }
        let mut i: usize = 0;
        while i < self.type_args.len()
            invariant
                self.type_args@.len() == other.type_args@.len(),
                i <= self.type_args@.len(),
                forall|j: int| 0 <= j < i ==> self.type_args@[j] == other.type_args@[j],
            decreases self.type_args.len() - i,
        {
            if self.type_args[i] != other.type_args[i] {
                return false;
            }
            i = i + 1;
        }
        assert(self.type_args@ =~= other.type_args@);
        true
    }

    /// A copy of the key.
    pub fn duplicate(&self) -> (res: FunctionKey)
        ensures
            res@ == self@,
    {
        let mut type_args: Vec<usize> = Vec::new();
        let mut i: usize = 0;
        while i < self.type_args.len()
            invariant
                i <= self.type_args@.len(),
                type_args@ =~= self.type_args@.take(i as int),
            decreases self.type_args.len() - i,
        {
            type_args.push(self.type_args[i]);
            i = i + 1;
        }
        assert(type_args@ =~= self.type_args@);
        FunctionKey { id: self.id, type_args }
    }
}

/// The first index at or after `i` at which `s` holds `k`.
pub open spec fn position_from<V>(s: Seq<V>, k: V, i: int) -> Option<int>
    decreases s.len() - i,
{
    if i < 0 || i >= s.len() {
        None
    } else if s[i] == k {
        Some(i)
    } else {
        position_from(s, k, i + 1)
    }
}

pub proof fn lemma_position_from<V>(s: Seq<V>, k: V, i: int)
    requires
        0 <= i,
    ensures
        position_from(s, k, i) matches Some(j) ==> i <= j < s.len() && s[j] == k,
        position_from(s, k, i) is None ==> forall|j: int| i <= j < s.len() ==> s[j] != k,
    decreases s.len() - i,
{
    if i < s.len() {
        lemma_position_from(s, k, i + 1);
    }
}

/// Hands out one id per distinct function key. Id `0` is the global
/// (top-level) context; the key stored at `keys[i]` has id `i + 1`.
pub struct FunctionKeyStore {
    pub keys: Vec<FunctionKey>,
    pub global_key: FunctionKeyId,
}

/// The keys a store holds, in the order their ids were handed out.
pub open spec fn key_views(keys: Seq<FunctionKey>) -> Seq<(usize, Seq<usize>)> {
    keys.map_values(|k: FunctionKey| k@)
}

impl FunctionKeyStore {
    pub open spec fn spec_keys(&self) -> Seq<(usize, Seq<usize>)> {
        key_views(self.keys@)
    }

    /// No key is stored twice, and the global context has id `0`.
    pub open spec fn wf(&self) -> bool {
        &&& self.global_key == FunctionKeyId(0)
        &&& forall|i: int, j: int|
            0 <= i < j < self.spec_keys().len() ==> #[trigger] self.spec_keys()[i] != #[trigger] self.spec_keys()[j]
    }

    pub open spec fn spec_key_to_id(&self, key: (usize, Seq<usize>)) -> Option<FunctionKeyId> {
        match position_from(self.spec_keys(), key, 0) {
            Some(j) => Some(FunctionKeyId((j + 1) as usize)),
            None => None,
        }
    }

    pub open spec fn spec_id_to_key(&self, id: FunctionKeyId) -> Option<(usize, Seq<usize>)> {
        if 1 <= id.0 <= self.spec_keys().len() {
            Some(self.spec_keys()[id.0 - 1])
        } else {
            None
        }
    }

    pub fn new() -> (res: FunctionKeyStore)
        ensures
            res.wf(),
            res.spec_keys().len() == 0,
    {
        FunctionKeyStore { keys: Vec::new(), global_key: FunctionKeyId(0) }
    }

    pub fn global_key(&self) -> (res: FunctionKeyId)
        ensures
            res == self.global_key,
    {
        self.global_key
    }

    /// The id of `key`, handing out the next id if the key is new.
    pub fn insert(&mut self, key: FunctionKey) -> (res: FunctionKeyId)
        requires
            old(self).wf(),
            old(self).keys@.len() < usize::MAX,
        ensures
            final(self).wf(),
            final(self).global_key == old(self).global_key,
            final(self).spec_key_to_id(key@) == Some(res),
            final(self).spec_id_to_key(res) == Some(key@),
            old(self).spec_key_to_id(key@) matches Some(id) ==> res == id && final(self).spec_keys()
                == old(self).spec_keys(),
            old(self).spec_key_to_id(key@) is None ==> res.0 == old(self).spec_keys().len() + 1
                && final(self).spec_keys() == old(self).spec_keys().push(key@),
    {
        proof {
            lemma_position_from(self.spec_keys(), key@, 0);
        }
        match self.key_to_id(&key) {
            Some(id) => {
                return id;
            },
            None => {},
        }
        let ghost old_keys = self.spec_keys();
        self.keys.push(key);
        let id = FunctionKeyId(self.keys.len());
        proof {
            assert(self.spec_keys() =~= old_keys.push(key@));
            assert(forall|j: int| 0 <= j < old_keys.len() ==> old_keys[j] != key@);
            lemma_position_from(self.spec_keys(), key@, 0);
            assert(self.spec_keys()[old_keys.len() as int] == key@);
        }
        id
    }

    pub fn id_to_key(&self, id: FunctionKeyId) -> (res: Option<&FunctionKey>)
        ensures
            res matches Some(k) ==> self.spec_id_to_key(id) == Some(k@),
            res is None <==> self.spec_id_to_key(id) is None,
    {
        if 1 <= id.0 && id.0 <= self.keys.len() {
            Some(&self.keys[id.0 - 1])
        } else {
            None
        }
    }

    pub fn key_to_id(&self, key: &FunctionKey) -> (res: Option<FunctionKeyId>)
        requires
            self.keys@.len() < usize::MAX,
        ensures
            res == self.spec_key_to_id(key@),
    {
        let mut i: usize = 0;
        while i < self.keys.len()
            invariant
                i <= self.keys@.len(),
                self.keys@.len() < usize::MAX,
                position_from(self.spec_keys(), key@, 0) == position_from(self.spec_keys(), key@, i as int),
            decreases self.keys.len() - i,
        {
            if self.keys[i].same_key(key) {
                return Some(FunctionKeyId(i + 1));
            }
            i = i + 1;
        }
        None
    }
}

/// A stored key and its id lead to each other.
pub proof fn law_key_id_inverse(store: FunctionKeyStore, id: FunctionKeyId)
    requires
        store.wf(),
    ensures
        store.spec_id_to_key(id) matches Some(k) ==> store.spec_key_to_id(k) == Some(id),
{
    if let Some(k) = store.spec_id_to_key(id) {
        lemma_position_from(store.spec_keys(), k, 0);
        let j = (id.0 - 1) as int;
        if let Some(p) = position_from(store.spec_keys(), k, 0) {
            if p < j {
                assert(store.spec_keys()[p] != store.spec_keys()[j]);
            } else if p > j {
                assert(store.spec_keys()[j] != store.spec_keys()[p]);
            }
        }
    }
}

/// Two stored keys share an id only if they are the same key.
pub proof fn law_ids_identify_keys(store: FunctionKeyStore, a: (usize, Seq<usize>), b: (usize, Seq<usize>))
    requires
        store.wf(),
        store.keys@.len() < usize::MAX,
        store.spec_key_to_id(a) is Some,
    ensures
        store.spec_key_to_id(b) == store.spec_key_to_id(a) <==> b == a,
{
    lemma_position_from(store.spec_keys(), a, 0);
    lemma_position_from(store.spec_keys(), b, 0);
    if let Some(pb) = position_from(store.spec_keys(), b, 0) {
        let pa = position_from(store.spec_keys(), a, 0)->Some_0;
        if store.spec_key_to_id(b) == store.spec_key_to_id(a) {
            assert(((pb + 1) as usize) as int == pb + 1);
            assert(((pa + 1) as usize) as int == pa + 1);
            assert(pa == pb);
        }
    }
}

/// Across two inserts, the second hands back the first's id exactly when
/// it is given the same key: `before` holds the first key `k` under `id`,
/// and `after` and `id2` are what inserting `k2` into `before` gives.
pub proof fn law_insert_reuses_only_equal_keys(
    before: FunctionKeyStore,
    after: FunctionKeyStore,
    k: (usize, Seq<usize>),
    id: FunctionKeyId,
    k2: (usize, Seq<usize>),
    id2: FunctionKeyId,
)
    requires
        before.wf(),
        after.wf(),
        before.keys@.len() < usize::MAX,
        before.spec_key_to_id(k) == Some(id),
        after.spec_key_to_id(k2) == Some(id2),
        before.spec_key_to_id(k2) matches Some(i) ==> id2 == i && after.spec_keys() == before.spec_keys(),
        before.spec_key_to_id(k2) is None ==> id2.0 == before.spec_keys().len() + 1 && after.spec_keys()
            == before.spec_keys().push(k2),
    ensures
        id2 == id <==> k2 == k,
{
    lemma_position_from(before.spec_keys(), k, 0);
    lemma_position_from(before.spec_keys(), k2, 0);
    if before.spec_key_to_id(k2) is Some {
        law_ids_identify_keys(before, k, k2);
    }
}

/// The global id never stands for a stored key.
pub proof fn law_key_never_global(store: FunctionKeyStore, key: (usize, Seq<usize>))
    requires
        store.wf(),
    ensures
        store.spec_key_to_id(key) != Some(store.global_key),
        store.spec_id_to_key(store.global_key) is None,
{
    broadcast use vstd::std_specs::vec::group_vec_axioms;

    assert(store.keys.len() == store.keys@.len());
    lemma_position_from(store.spec_keys(), key, 0);
}

// ---------------------------------------------------------------------------
// Block names
// ---------------------------------------------------------------------------

/// The character of a decimal digit.
pub open spec fn digit_char(d: nat) -> char {
    if d == 0 {
        '0'
    } else if d == 1 {
        '1'
    } else if d == 2 {
        '2'
    } else if d == 3 {
        '3'
    } else if d == 4 {
        '4'
    } else if d == 5 {
        '5'
    } else if d == 6 {
        '6'
    } else if d == 7 {
        '7'
    } else if d == 8 {
        '8'
    } else {
        '9'
    }
}

/// `n` written in decimal, without leading zeros.
pub open spec fn decimal(n: nat) -> Seq<char>
    decreases n,
{
    if n < 10 {
        seq![digit_char(n)]
    } else {
        decimal(n / 10).push(digit_char(n % 10))
    }
}

pub proof fn lemma_decimal_nonempty(n: nat)
    ensures
        decimal(n).len() >= 1,
        n >= 10 ==> decimal(n).len() >= 2,
    decreases n,
{
    if n >= 10 {
        lemma_decimal_nonempty(n / 10);
    }
}

/// Different numbers are written differently.
pub proof fn lemma_decimal_injective(a: nat, b: nat)
    requires
        decimal(a) == decimal(b),
    ensures
        a == b,
    decreases a,
{
    lemma_decimal_nonempty(a);
    lemma_decimal_nonempty(b);
    if a < 10 && b < 10 {
        assert(decimal(a)[0] == digit_char(a));
        assert(decimal(b)[0] == digit_char(b));
    } else if a >= 10 && b >= 10 {
        let da = decimal(a);
        let db = decimal(b);
        assert(da.last() == digit_char(a % 10));
        assert(db.last() == digit_char(b % 10));
        assert(da.drop_last() =~= decimal(a / 10));
        assert(db.drop_last() =~= decimal(b / 10));
        lemma_decimal_injective(a / 10, b / 10);
    }
}

/// Distinct blocks get distinct names.
pub proof fn law_block_names_distinct(a: BlockId, b: BlockId)
    requires
        a != b,
    ensures
        seq!['b', 'b', '_'] + decimal(a.0 as nat) != seq!['b', 'b', '_'] + decimal(b.0 as nat),
{
    let na = seq!['b', 'b', '_'] + decimal(a.0 as nat);
    let nb = seq!['b', 'b', '_'] + decimal(b.0 as nat);
    if na == nb {
        assert(na.subrange(3, na.len() as int) =~= decimal(a.0 as nat));
        assert(nb.subrange(3, nb.len() as int) =~= decimal(b.0 as nat));
        lemma_decimal_injective(a.0 as nat, b.0 as nat);
    }
}

fn digit_text(d: usize) -> (res: &'static str)
    requires
        d < 10,
    ensures
        res@ == seq![digit_char(d as nat)],
{
    match d {
        0 => {
            proof {
                reveal_strlit("0");
            }
            "0"
        },
        1 => {
            proof {
                reveal_strlit("1");
            }
            "1"
        },
        2 => {
            proof {
                reveal_strlit("2");
            }
            "2"
        },
        3 => {
            proof {
                reveal_strlit("3");
            }
            "3"
        },
        4 => {
            proof {
                reveal_strlit("4");
            }
            "4"
        },
        5 => {
            proof {
                reveal_strlit("5");
            }
            "5"
        },
        6 => {
            proof {
                reveal_strlit("6");
            }
            "6"
        },
        7 => {
            proof {
                reveal_strlit("7");
            }
            "7"
        },
        8 => {
            proof {
                reveal_strlit("8");
            }
            "8"
        },
        _ => {
            proof {
                reveal_strlit("9");
            }
            "9"
        },
    }
}

/// Appends `n` in decimal to `s`.
fn push_decimal(s: &mut String, n: usize)
    ensures
        final(s)@ == old(s)@ + decimal(n as nat),
    decreases n,
{
    if n >= 10 {
        push_decimal(s, n / 10);
    }
    let digit = digit_text(n % 10);
    s.append(digit);
    proof {
        if n >= 10 {
            assert(decimal(n as nat) == decimal((n / 10) as nat).push(digit_char((n % 10) as nat)));
        }
    }
}

/// The name a MIR block gets in the IR: `bb_` and its index.
pub fn name_block(block_id: BlockId) -> (res: String)
    ensures
        res@ == seq!['b', 'b', '_'] + decimal(block_id.0 as nat),
{
    let prefix = "bb_";
    proof {
        reveal_strlit("bb_");
    }
    let mut name = String::from_str(prefix);
    push_decimal(&mut name, block_id.0);
    name
}

// ---------------------------------------------------------------------------
// Symbol names
// ---------------------------------------------------------------------------

/// A module of the program: its name and the module it is declared in.
pub struct ModuleInfo {
    pub name: String,
    pub parent: Option<usize>,
}

/// The `name_` parts of the modules from `current` up to (not including)
/// `root`, innermost first; `None` when the walk meets an id the module
/// table does not hold, or does not reach `root` (or a module without
/// parent) within `fuel` steps.
pub open spec fn symbol_path(modules: VecMap<ModuleInfo>, root: usize, current: usize, fuel: nat) -> Option<Seq<char>>
    decreases fuel,
{
    if current == root {
        Some(Seq::<char>::empty())
    } else if fuel == 0 {
        None
    } else {
        match modules.spec_get(current as int) {
            None => None,
            Some(m) => {
                let part = m.name@ + seq!['_'];
                match m.parent {
                    None => Some(part),
                    Some(p) => match symbol_path(modules, root, p, (fuel - 1) as nat) {
                        Some(rest) => Some(part + rest),
                        None => None,
                    },
                }
            },
        }
    }
}

/// Once a walk reaches its end within `f1` steps, allowing more steps does
/// not change where it ends.
pub proof fn law_symbol_path_depth_independent(modules: VecMap<ModuleInfo>, root: usize, current: usize, f1: nat, f2: nat)
    requires
        f1 <= f2,
        symbol_path(modules, root, current, f1) is Some,
    ensures
        symbol_path(modules, root, current, f2) == symbol_path(modules, root, current, f1),
    decreases f1,
{
    if current != root {
        if let Some(m) = modules.spec_get(current as int) {
            if let Some(p) = m.parent {
                law_symbol_path_depth_independent(modules, root, p, (f1 - 1) as nat, (f2 - 1) as nat);
            }
        }
    }
}

/// The symbol path of `current`, where the walk ends.
pub open spec fn spec_symbol_path(modules: VecMap<ModuleInfo>, root: usize, current: usize) -> Seq<char> {
    symbol_path(modules, root, current, choose|fuel: nat| #[trigger] symbol_path(modules, root, current, fuel) is Some)->Some_0
}

/// The mangled suffix for the type arguments `args[i..]`: `_` and each
/// argument's text.
pub open spec fn type_args_suffix(args: Seq<String>, i: int) -> Seq<char>
    decreases args.len() - i,
{
    if i < 0 || i >= args.len() {
        Seq::<char>::empty()
    } else {
        seq!['_'] + args[i]@ + type_args_suffix(args, i + 1)
    }
}

/// The symbol of a bodied function: the module path, `__` when the function
/// is not in the root module, its name, `___t_` and the owner type's text
/// for a method, and `___g` followed by the type arguments for a generic
/// instance.
pub open spec fn mangled_name(
    path: Seq<char>,
    in_root: bool,
    name: Seq<char>,
    owner: Option<Seq<char>>,
    type_args: Seq<String>,
) -> Seq<char> {
    path + (if in_root {
        Seq::<char>::empty()
    } else {
        seq!['_', '_']
    }) + name + (match owner {
        Some(o) => seq!['_', '_', '_', 't', '_'] + o,
        None => Seq::<char>::empty(),
    }) + (if type_args.len() == 0 {
        Seq::<char>::empty()
    } else {
        seq!['_', '_', '_', 'g']
    }) + type_args_suffix(type_args, 0)
}

/// The symbol name of a function declared in `from_module`. `owner` is the
/// text of the type the function is a method of, if it is one, and
/// `type_args` the texts of its type arguments.
pub fn mangle(
    modules: &VecMap<ModuleInfo>,
    root: usize,
    from_module: usize,
    name: &str,
    owner: Option<&str>,
    type_args: &Vec<String>,
) -> (res: String)
    requires
        exists|fuel: nat| #[trigger] symbol_path(*modules, root, from_module, fuel) is Some,
    ensures
        res@ == mangled_name(
            spec_symbol_path(*modules, root, from_module),
            from_module == root,
            name@,
            match owner {
                Some(o) => Some(o@),
                None => None,
            },
            type_args@,
        ),
{
    let ghost fuel = choose|fuel: nat| #[trigger] symbol_path(*modules, root, from_module, fuel) is Some;
    let ghost path = symbol_path(*modules, root, from_module, fuel).unwrap();
    let mut sb = String::new();
    let mut current = from_module;
    let ghost mut f: nat = fuel;
    let mut finished = false;
    while current != root && !finished
        invariant
            symbol_path(*modules, root, from_module, fuel) == Some(path),
            !finished ==> symbol_path(*modules, root, current, f) is Some && path == sb@ + symbol_path(
                *modules,
                root,
                current,
                f,
            ).unwrap(),
            finished ==> path == sb@,
        decreases f, if finished { 0int } else { 1int },
    {
        let module = modules.get(current).unwrap();
        sb.append(module.name.as_str());
        sb.append("_");
        proof {
            reveal_strlit("_");
        }
        match module.parent {
            Some(p) => {
                current = p;
                proof {
                    f = (f - 1) as nat;
                }
            },
            None => {
                finished = true;
            },
        }
    }
    proof {
        if !finished {
            assert(symbol_path(*modules, root, current, f) == Some(Seq::<char>::empty()));
        }
        assert(path =~= sb@);
    }
    if from_module != root {
        sb.append("__");
        proof {
            reveal_strlit("__");
        }
    }
    sb.append(name);
    match owner {
        Some(o) => {
            sb.append("___t_");
            proof {
                reveal_strlit("___t_");
            }
            sb.append(o);
        },
        None => {},
    }
    if type_args.len() != 0 {
        sb.append("___g");
        proof {
            reveal_strlit("___g");
        }
    }
    let ghost before = sb@;
    let mut i: usize = 0;
    while i < type_args.len()
        invariant
            i <= type_args@.len(),
            before + type_args_suffix(type_args@, 0) == sb@ + type_args_suffix(type_args@, i as int),
        decreases type_args.len() - i,
    {
        sb.append("_");
        proof {
            reveal_strlit("_");
        }
        sb.append(type_args[i].as_str());
        proof {
            assert(seq!['_'] + type_args@[i as int]@ + type_args_suffix(type_args@, i + 1) =~= seq!['_']
                + type_args@[i as int]@ + type_args_suffix(type_args@, i + 1));
        }
        i = i + 1;
    }
    proof {
        assert(sb@ =~= mangled_name(
            path,
            from_module == root,
            name@,
            match owner {
                Some(o) => Some(o@),
                None => None,
            },
            type_args@,
        ));
    }
    sb
}

/// The dotted path of `current`'s modules below `root`, outermost first,
/// put in front of `acc`; the walk stops at `root` or at an id the table
/// does not hold, and a module without parent continues at `root`. `None`
/// when it takes more than `fuel` steps.
pub open spec fn export_path_from(
    modules: VecMap<ModuleInfo>,
    root: usize,
    current: usize,
    acc: Seq<char>,
    fuel: nat,
) -> Option<Seq<char>>
    decreases fuel,
{
    if fuel == 0 {
        None
    } else {
        match modules.spec_get(current as int) {
            None => Some(acc),
            Some(m) => if current == root {
                Some(acc)
            } else {
                let next_acc = if acc.len() == 0 {
                    m.name@
                } else {
                    m.name@ + seq!['.'] + acc
                };
                let next = match m.parent {
                    Some(p) => p,
                    None => root,
                };
                export_path_from(modules, root, next, next_acc, (fuel - 1) as nat)
            },
        }
    }
}

/// Once the export walk ends within `f1` steps, allowing more steps does
/// not change the path it builds.
pub proof fn law_export_path_depth_independent(
    modules: VecMap<ModuleInfo>,
    root: usize,
    current: usize,
    acc: Seq<char>,
    f1: nat,
    f2: nat,
)
    requires
        f1 <= f2,
        export_path_from(modules, root, current, acc, f1) is Some,
    ensures
        export_path_from(modules, root, current, acc, f2) == export_path_from(modules, root, current, acc, f1),
    decreases f1,
{
    if let Some(m) = modules.spec_get(current as int) {
        if current != root {
            let next_acc = if acc.len() == 0 {
                m.name@
            } else {
                m.name@ + seq!['.'] + acc
            };
            let next = match m.parent {
                Some(p) => p,
                None => root,
            };
            law_export_path_depth_independent(modules, root, next, next_acc, (f1 - 1) as nat, (f2 - 1) as nat);
        }
    }
}

/// The export path of `module_id`: empty for the root, and where the walk
/// ends otherwise.
pub open spec fn spec_export_path(modules: VecMap<ModuleInfo>, root: usize, module_id: usize) -> Seq<char> {
    if module_id == root {
        Seq::<char>::empty()
    } else {
        export_path_from(
            modules,
            root,
            module_id,
            Seq::<char>::empty(),
            choose|fuel: nat| #[trigger] export_path_from(modules, root, module_id, Seq::<char>::empty(), fuel) is Some,
        )->Some_0
    }
}

/// The dotted module path under which a function of `module_id` is
/// exported: empty for the root module, `outer.inner` below it.
pub fn get_module_path(module_id: usize, modules: &VecMap<ModuleInfo>, root: usize) -> (res: String)
    requires
        module_id == root || exists|fuel: nat|
            #[trigger] export_path_from(*modules, root, module_id, Seq::<char>::empty(), fuel) is Some,
    ensures
        res@ == spec_export_path(*modules, root, module_id),
{
    if module_id == root {
        return String::new();
    }
    let ghost fuel = choose|fuel: nat|
        #[trigger] export_path_from(*modules, root, module_id, Seq::<char>::empty(), fuel) is Some;
    let ghost target = export_path_from(*modules, root, module_id, Seq::<char>::empty(), fuel);
    let mut path = String::new();
    let mut current = module_id;
    let ghost mut f: nat = fuel;
    loop
        invariant
            export_path_from(*modules, root, module_id, Seq::<char>::empty(), fuel) == target,
            target is Some,
            export_path_from(*modules, root, current, path@, f) == target,
        ensures
            target == Some(path@),
        decreases f,
    {
        let module = match modules.get(current) {
            Some(m) => m,
            None => {
                break;
            },
        };
        if current == root {
            break;
        }
        let ghost acc = path@;
        let mut next_path = String::from_str(module.name.as_str());
        if !path.as_str().is_empty() {
            next_path.append(".");
            proof {
                reveal_strlit(".");
            }
            next_path.append(path.as_str());
            assert(next_path@ =~= module.name@ + seq!['.'] + acc);
        } else {
            assert(next_path@ =~= module.name@);
        }
        path = next_path;
        current = match module.parent {
            Some(p) => p,
            None => root,
        };
        proof {
            f = (f - 1) as nat;
        }
    }
    path
}

// ---------------------------------------------------------------------------
// Exports
// ---------------------------------------------------------------------------

/// What the export table needs to know of a function.
pub struct FunctionInfo {
    pub name: String,
    pub from_module: usize,
}

/// The name a function is exported under: its module path and its name,
/// joined by a dot, or the bare name in the root module.
pub open spec fn export_name(path: Seq<char>, name: Seq<char>) -> Seq<char> {
    if path.len() == 0 {
        name
    } else {
        path + seq!['.'] + name
    }
}

/// The first entry at or after `i` whose name is `name`.
pub open spec fn entry_position(entries: Seq<(Seq<char>, usize)>, name: Seq<char>, i: int) -> Option<int>
    decreases entries.len() - i,
{
    if i < 0 || i >= entries.len() {
        None
    } else if entries[i].0 == name {
        Some(i)
    } else {
        entry_position(entries, name, i + 1)
    }
}

/// Records `id` under `name`: an existing entry of that name is replaced in
/// place, a new name is appended.
pub open spec fn upsert(entries: Seq<(Seq<char>, usize)>, name: Seq<char>, id: usize) -> Seq<(Seq<char>, usize)> {
    match entry_position(entries, name, 0) {
        Some(j) => entries.update(j, (name, id)),
        None => entries.push((name, id)),
    }
}

/// The export table after the first `n` public functions, in order; ids
/// with no function entry are skipped.
pub open spec fn exports_of(
    public_functions: Seq<usize>,
    functions: VecMap<FunctionInfo>,
    modules: VecMap<ModuleInfo>,
    root: usize,
    n: int,
) -> Seq<(Seq<char>, usize)>
    decreases n,
{
    if n <= 0 {
        Seq::empty()
    } else {
        let before = exports_of(public_functions, functions, modules, root, n - 1);
        let id = public_functions[n - 1];
        match functions.spec_get(id as int) {
            Some(f) => upsert(before, export_name(spec_export_path(modules, root, f.from_module), f.name@), id),
            None => before,
        }
    }
}

/// An export table's entries by their names' text.
pub open spec fn entries_view(entries: Seq<(String, usize)>) -> Seq<(Seq<char>, usize)> {
    entries.map_values(|e: (String, usize)| (e.0@, e.1))
}

/// Whether every public function's module path can be walked to its end.
pub open spec fn exports_walkable(
    public_functions: Seq<usize>,
    functions: VecMap<FunctionInfo>,
    modules: VecMap<ModuleInfo>,
    root: usize,
) -> bool {
    forall|i: int|
        0 <= i < public_functions.len() ==> (#[trigger] functions.spec_get(public_functions[i] as int) matches Some(f)
            ==> (f.from_module == root || exists|fuel: nat|
            #[trigger] export_path_from(modules, root, f.from_module, Seq::<char>::empty(), fuel) is Some))
}

/// The table of the crate's public functions by their exported names.
pub fn extract_exports(
    public_functions: &Vec<usize>,
    functions: &VecMap<FunctionInfo>,
    modules: &VecMap<ModuleInfo>,
    root: usize,
) -> (res: Vec<(String, usize)>)
    requires
        exports_walkable(public_functions@, *functions, *modules, root),
    ensures
        entries_view(res@) == exports_of(public_functions@, *functions, *modules, root, public_functions@.len() as int),
{
    let mut exports: Vec<(String, usize)> = Vec::new();
    let mut i: usize = 0;
    while i < public_functions.len()
        invariant
            i <= public_functions@.len(),
            exports_walkable(public_functions@, *functions, *modules, root),
            entries_view(exports@) == exports_of(public_functions@, *functions, *modules, root, i as int),
        decreases public_functions.len() - i,
    {
        let id = public_functions[i];
        proof {
            assert(functions.spec_get(public_functions@[i as int] as int) == functions.spec_get(id as int));
        }
        match functions.get(id) {
            Some(func) => {
                let path = get_module_path(func.from_module, modules, root);
                let mut full_name = String::new();
                if path.as_str().is_empty() {
                    full_name.append(func.name.as_str());
                } else {
                    full_name.append(path.as_str());
                    full_name.append(".");
                    proof {
                        reveal_strlit(".");
                    }
                    full_name.append(func.name.as_str());
                }
                proof {
                    assert(full_name@ =~= export_name(path@, func.name@));
                }
                insert_export(&mut exports, full_name, id);
            },
            None => {},
        }
        i = i + 1;
    }
    exports
}

/// Records `id` under `name` in the table.
fn insert_export(exports: &mut Vec<(String, usize)>, name: String, id: usize)
    ensures
        entries_view(final(exports)@) == upsert(entries_view(old(exports)@), name@, id),
{
    let ghost before = entries_view(exports@);
    let mut j: usize = 0;
    while j < exports.len()
        invariant
            j <= exports@.len(),
            exports@ == old(exports)@,
            before == entries_view(exports@),
            entry_position(before, name@, 0) == entry_position(before, name@, j as int),
        decreases exports.len() - j,
    {
        if exports[j].0 == name {
            let ghost name_view = name@;
            exports.set(j, (name, id));
            proof {
                assert(entries_view(exports@) =~= before.update(j as int, (name_view, id)));
            }
            return;
        }
        j = j + 1;
    }
    let ghost name_view = name@;
    exports.push((name, id));
    proof {
        assert(entries_view(exports@) =~= before.push((name_view, id)));
    }
}

} // verus!
