//! The game's runtime type schema: scopes per library, classes per scope, and
//! the offsets of each class's fields, as read out of the schema system of a
//! running process.
use vstd::prelude::*;

use crate::names::{distinct_names, find_name, insert_name, name_map};
use crate::runtime::{c_string_at, checked_addr, checked_mul, mem_u16, mem_u32, mem_u64, HeadlessError, HeadlessRuntime};

verus! {

/// Finds the schema system in `libschemasystem.so`: a `lea rdi, [rip + disp]`
/// of it followed by two calls.
pub const SCHEMA_SYSTEM_PATTERN: &'static str = "48 8D 3D ? ? ? ? E8 ? ? ? ? 48 8B BD ? ? ? ? 31 F6 E8 ? ? ? ? E9";

/// How long a name read from the process may be.
pub const NAME_MAX_LEN: usize = 128;

/// A class of the schema: its name, its size, and the offsets of its fields.
#[derive(Debug)]
pub struct Class {
    name: String,
    fields: Vec<(String, u64)>,
    size: i32,
}

impl Class {
    #[verifier::type_invariant]
    spec fn well_formed(self) -> bool {
        distinct_names(self.fields@)
    }

    /// The class's name.
    pub closed spec fn name_view(&self) -> Seq<char> {
        self.name@
    }

    /// The field offsets by field name.
    pub closed spec fn field_map(&self) -> Map<Seq<char>, u64> {
        name_map(self.fields@)
    }

    /// The class's size in bytes, as the schema records it.
    pub closed spec fn size_view(&self) -> i32 {
        self.size
    }

    /// A class without fields.
    pub fn new(name: String, size: i32) -> (c: Class)
        ensures
            c.name_view() == name@,
            c.field_map() == Map::<Seq<char>, u64>::empty(),
            c.size_view() == size,
    {
        let c = Class { name, fields: Vec::new(), size };
        assert(c.field_map() =~= Map::<Seq<char>, u64>::empty());
        c
    }

    /// Records the offset of the field `name`, replacing an earlier one.
    pub fn insert_field(&mut self, name: String, offset: u64)
        ensures
            final(self).field_map() == old(self).field_map().insert(name@, offset),
            final(self).name_view() == old(self).name_view(),
            final(self).size_view() == old(self).size_view(),
    {
        proof {
            use_type_invariant(&*self);
        }
        let mut entries = Vec::new();
        std::mem::swap(&mut entries, &mut self.fields);
        insert_name(&mut entries, name, offset);
        self.fields = entries;
    }

    /// The offset of the field `field`.
    pub fn get(&self, field: &str) -> (r: Option<u64>)
        ensures
            r == (if self.field_map().contains_key(field@) {
                Some(self.field_map()[field@])
            } else {
                None
            }),
    {
        proof {
            use_type_invariant(self);
        }
        match find_name(&self.fields, field) {
            Some(i) => Some(self.fields[i].1),
            None => None,
        }
    }

    /// The class's size in bytes.
    pub fn size(&self) -> (r: i32)
        ensures
            r == self.size_view(),
    {
        self.size
    }

    /// The class's name.
    pub fn name(&self) -> (r: &String)
        ensures
            r@ == self.name_view(),
    {
        &self.name
    }
}

/// The schema scope of one library: its name and its classes by name.
#[derive(Debug)]
pub struct ModuleScope {
    name: String,
    classes: Vec<(String, Class)>,
}

impl ModuleScope {
    #[verifier::type_invariant]
    spec fn well_formed(self) -> bool {
        distinct_names(self.classes@)
    }

    /// The scope's name.
    pub closed spec fn name_view(&self) -> Seq<char> {
        self.name@
    }

    /// The classes by name.
    pub closed spec fn class_map(&self) -> Map<Seq<char>, Class> {
        name_map(self.classes@)
    }

    /// A scope without classes.
    pub fn new(name: String) -> (s: ModuleScope)
        ensures
            s.name_view() == name@,
            s.class_map() == Map::<Seq<char>, Class>::empty(),
    {
        let s = ModuleScope { name, classes: Vec::new() };
        assert(s.class_map() =~= Map::<Seq<char>, Class>::empty());
        s
    }

    /// Records `class` under `name`, replacing an earlier one.
    pub fn insert_class(&mut self, name: String, class: Class)
        ensures
            final(self).class_map() == old(self).class_map().insert(name@, class),
            final(self).name_view() == old(self).name_view(),
    {
        proof {
            use_type_invariant(&*self);
        }
        let mut entries = Vec::new();
        std::mem::swap(&mut entries, &mut self.classes);
        insert_name(&mut entries, name, class);
        self.classes = entries;
    }

    /// The class named `class`.
    pub fn get_class(&self, class: &str) -> (r: Option<&Class>)
        ensures
            match r {
                Some(c) => self.class_map().contains_key(class@) && *c == self.class_map()[class@],
                None => !self.class_map().contains_key(class@),
            },
    {
        proof {
            use_type_invariant(self);
        }
        match find_name(&self.classes, class) {
            Some(i) => Some(&self.classes[i].1),
            None => None,
        }
    }

    /// The scope's name.
    pub fn name(&self) -> (r: &String)
        ensures
            r@ == self.name_view(),
    {
        &self.name
    }
}

/// The schema system: one scope per library, by library name.
#[derive(Debug)]
pub struct SchemaSystem {
    scopes: Vec<(String, ModuleScope)>,
}

impl SchemaSystem {
    #[verifier::type_invariant]
    spec fn well_formed(self) -> bool {
        distinct_names(self.scopes@)
    }

    /// The scopes by library name.
    pub closed spec fn scope_map(&self) -> Map<Seq<char>, ModuleScope> {
        name_map(self.scopes@)
    }

    /// A schema without scopes.
    pub fn new() -> (s: SchemaSystem)
        ensures
            s.scope_map() == Map::<Seq<char>, ModuleScope>::empty(),
    {
        let s = SchemaSystem { scopes: Vec::new() };
        assert(s.scope_map() =~= Map::<Seq<char>, ModuleScope>::empty());
        s
    }

    /// Records `scope` under `name`, replacing an earlier one.
    pub fn insert_scope(&mut self, name: String, scope: ModuleScope)
        ensures
            final(self).scope_map() == old(self).scope_map().insert(name@, scope),
    {
        proof {
            use_type_invariant(&*self);
        }
        let mut entries = Vec::new();
        std::mem::swap(&mut entries, &mut self.scopes);
        insert_name(&mut entries, name, scope);
        self.scopes = entries;
    }

    /// The scope of the library `library`.
    pub fn get_library(&self, library: &str) -> (r: Option<&ModuleScope>)
        ensures
            match r {
                Some(s) => self.scope_map().contains_key(library@) && *s == self.scope_map()[library@],
                None => !self.scope_map().contains_key(library@),
            },
    {
        proof {
            use_type_invariant(self);
        }
        match find_name(&self.scopes, library) {
            Some(i) => Some(&self.scopes[i].1),
            None => None,
        }
    }
}

// ---------------------------------------------------------------------------
// Reading the schema out of the process
// ---------------------------------------------------------------------------

/// The most fields a class may have for its field list to be read.
pub const MAX_CLASS_FIELDS: i16 = 20000;
/// How many hash buckets a scope's class table has.
pub const SCOPE_BUCKETS: usize = 1024;

/// The field description at `address`: the name its name pointer points to,
/// and its offset, a signed 32-bit value at `0x10`.
pub open spec fn field_at(memory: spec_fn(int) -> u8, address: int) -> (Seq<char>, u64) {
    (
        c_string_at(memory, mem_u64(memory, address) as usize as int, NAME_MAX_LEN as nat),
        mem_u32(memory, address + 0x10) as i32 as u64,
    )
}

/// The name of the class description at `address`.
pub open spec fn class_desc_name(memory: spec_fn(int) -> u8, address: int) -> Seq<char> {
    c_string_at(memory, mem_u64(memory, address + 0x08) as usize as int, NAME_MAX_LEN as nat)
}

/// The size of the class description at `address`.
pub open spec fn class_desc_size(memory: spec_fn(int) -> u8, address: int) -> i32 {
    mem_u32(memory, address + 0x20) as i32
}

/// The field count of the class description at `address`.
pub open spec fn class_desc_field_count(memory: spec_fn(int) -> u8, address: int) -> i16 {
    mem_u16(memory, address + 0x24) as i16
}

/// Where the `i`-th field description of the class description at
/// `address` stands.
pub open spec fn class_desc_field(memory: spec_fn(int) -> u8, address: int, i: int) -> int {
    mem_u64(memory, address + 0x30) as usize as int + 0x20 * i
}

/// `class` was read from the class description at `address`: its name and
/// size are those of the description; where the field count is out of
/// range it has no field, and else each of its fields is one of the
/// description's field descriptions.
pub open spec fn class_read_from(memory: spec_fn(int) -> u8, address: int, class: Class) -> bool {
    let count = class_desc_field_count(memory, address);
    &&& class.name_view() == class_desc_name(memory, address)
    &&& class.size_view() == class_desc_size(memory, address)
    &&& (count < 0 || count > MAX_CLASS_FIELDS) ==> class.field_map() == Map::<Seq<char>, u64>::empty()
    &&& forall|k: Seq<char>| #[trigger] class.field_map().contains_key(k) ==> exists|i: int|
        0 <= i < count && #[trigger] field_at(memory, class_desc_field(memory, address, i)) == (
            k,
            class.field_map()[k],
        )
}

/// Reads a field description: its name and its offset in the class.
fn read_field<R: HeadlessRuntime>(runtime: &mut R, address: usize) -> (r: Result<
    (String, u64),
    HeadlessError,
>)
    ensures
        final(runtime).memory() == old(runtime).memory(),
        final(runtime).readable() == old(runtime).readable(),
        final(runtime).mappings() == old(runtime).mappings(),
        final(runtime).module_file() == old(runtime).module_file(),
        r matches Ok((name, offset)) ==> (name@, offset) == field_at(old(runtime).memory(), address as int),
        address + 0x10 > usize::MAX ==> r is Err,
{
    let name_ptr = runtime.read_u64(address)? as usize;
    let name = runtime.read_c_string(name_ptr, NAME_MAX_LEN)?;
    let offset = runtime.read_i32(checked_addr(address, 0x10, "read Field offset")?)? as u64;
    Ok((name, offset))
}

impl Class {
    /// Reads a class description: its name, size, and, where its field count
    /// is between 0 and `MAX_CLASS_FIELDS`, the fields that can be read.
    pub fn read<R: HeadlessRuntime>(runtime: &mut R, address: usize) -> (r: Result<
        Class,
        HeadlessError,
    >)
        ensures
            final(runtime).memory() == old(runtime).memory(),
            final(runtime).readable() == old(runtime).readable(),
            final(runtime).mappings() == old(runtime).mappings(),
            final(runtime).module_file() == old(runtime).module_file(),
            r matches Ok(class) ==> class_read_from(old(runtime).memory(), address as int, class),
            address + 0x24 > usize::MAX ==> r is Err,
    {
        let ghost memory = runtime.memory();
        let name_ptr = runtime.read_u64(checked_addr(address, 0x08, "read Class name pointer")?)?
            as usize;
        let name = runtime.read_c_string(name_ptr, NAME_MAX_LEN)?;
        let field_count = runtime.read_i16(checked_addr(address, 0x24, "read Class field count")?)?;
        let size = runtime.read_i32(checked_addr(address, 0x20, "read Class size")?)?;
        let mut class = Class::new(name, size);
        if field_count < 0 || field_count > MAX_CLASS_FIELDS {
            return Ok(class);
        }
        assert(class.field_map() =~= Map::<Seq<char>, u64>::empty());
        let fields_vec = runtime.read_u64(checked_addr(address, 0x30, "read Class fields vector")?)?
            as usize;
        let count = field_count as usize;
        let mut idx: usize = 0;
        while idx < count
            invariant
                idx <= count,
                count == class_desc_field_count(memory, address as int) as int,
                fields_vec == mem_u64(memory, address + 0x30) as usize,
                runtime.memory() == memory,
                runtime.readable() == old(runtime).readable(),
                runtime.mappings() == old(runtime).mappings(),
                runtime.module_file() == old(runtime).module_file(),
                memory == old(runtime).memory(),
                class.name_view() == class_desc_name(memory, address as int),
                class.size_view() == class_desc_size(memory, address as int),
                forall|k: Seq<char>| #[trigger] class.field_map().contains_key(k) ==> exists|i: int|
                    0 <= i < idx && #[trigger] field_at(memory, class_desc_field(memory, address as int, i)) == (
                        k,
                        class.field_map()[k],
                    ),
            decreases count - idx,
        {
            let ghost before = class.field_map();
            let field_address = checked_addr(
                fields_vec,
                checked_mul(idx, 0x20, "Class field stride")?,
                "read Class field entry",
            )?;
            match read_field(runtime, field_address) {
                Ok((field_name, offset)) => {
                    let ghost key = field_name@;
                    class.insert_field(field_name, offset);
                    assert forall|k: Seq<char>| #[trigger] class.field_map().contains_key(k) implies exists|i: int|
                        0 <= i < idx + 1 && #[trigger] field_at(memory, class_desc_field(memory, address as int, i)) == (
                            k,
                            class.field_map()[k],
                        ) by {
                        if k == key {
                            assert(field_at(memory, class_desc_field(memory, address as int, idx as int)) == (k, class.field_map()[k]));
                        } else {
                            assert(before.contains_key(k));
                        }
                    }
                },
                Err(_) => {},
            }
            idx = idx + 1;
        }
        Ok(class)
    }
}

/// Every class is filed under its own name.
pub open spec fn classes_keyed_by_name(scope: ModuleScope) -> bool {
    forall|k: Seq<char>| #[trigger] scope.class_map().contains_key(k) ==> scope.class_map()[k].name_view() == k
}

/// `scope` was read from the scope description at `address`: its name is
/// the description's, or empty, and each of its classes was read from a
/// class description.
pub open spec fn scope_read_from(memory: spec_fn(int) -> u8, address: int, scope: ModuleScope) -> bool {
    &&& (scope.name_view() == c_string_at(memory, address + 0x08, NAME_MAX_LEN as nat)
        || scope.name_view() == Seq::<char>::empty())
    &&& all_classes_read(memory, scope.class_map())
}

/// Each class of `classes` was read from a class description.
pub open spec fn all_classes_read(memory: spec_fn(int) -> u8, classes: Map<Seq<char>, Class>) -> bool {
    forall|k: Seq<char>| #[trigger] classes.contains_key(k) ==> exists|a: int|
        #[trigger] class_read_from(memory, a, classes[k])
}

proof fn lemma_insert_read_class(
    memory: spec_fn(int) -> u8,
    classes: Map<Seq<char>, Class>,
    class: Class,
    address: int,
)
    requires
        all_classes_read(memory, classes),
        class_read_from(memory, address, class),
    ensures
        all_classes_read(memory, classes.insert(class.name_view(), class)),
{
    let after = classes.insert(class.name_view(), class);
    assert forall|k: Seq<char>| #[trigger] after.contains_key(k) implies exists|a: int|
        #[trigger] class_read_from(memory, a, after[k]) by {
        if k == class.name_view() {
            assert(class_read_from(memory, address, after[k]));
        } else {
            assert(classes.contains_key(k));
            let a = choose|a: int| #[trigger] class_read_from(memory, a, classes[k]);
            assert(after[k] == classes[k]);
            assert(class_read_from(memory, a, after[k]));
        }
    }
}

impl ModuleScope {
    /// Files `class` under its own name, replacing an earlier one.
    fn add_class(&mut self, class: Class)
        requires
            classes_keyed_by_name(*old(self)),
        ensures
            classes_keyed_by_name(*final(self)),
            final(self).name_view() == old(self).name_view(),
            final(self).class_map() == old(self).class_map().insert(class.name_view(), class),
    {
        let key = class.name().clone();
        self.insert_class(key, class);
    }

    /// Reads a scope: its name (empty where it cannot be read), the classes
    /// of its hash buckets and of its blob list. A class that cannot be read
    /// is left out; a chain whose next link cannot be read ends there. A
    /// chain is followed for at most `usize::MAX` links.
    pub fn read<R: HeadlessRuntime>(runtime: &mut R, address: usize) -> (r: Result<
        ModuleScope,
        HeadlessError,
    >)
        ensures
            final(runtime).memory() == old(runtime).memory(),
            final(runtime).readable() == old(runtime).readable(),
            final(runtime).mappings() == old(runtime).mappings(),
            final(runtime).module_file() == old(runtime).module_file(),
            r matches Ok(scope) ==> classes_keyed_by_name(scope) && scope_read_from(
                old(runtime).memory(),
                address as int,
                scope,
            ),
            address + 0x5F0 > usize::MAX ==> r is Err,
    {
        let ghost memory = runtime.memory();
        let name = match runtime.read_c_string(
            checked_addr(address, 0x08, "read ModuleScope name")?,
            NAME_MAX_LEN,
        ) {
            Ok(name) => name,
            Err(_) => String::new(),
        };
        let mut scope = ModuleScope::new(name);
        assert(all_classes_read(memory, scope.class_map()));
        let hash_vector = checked_addr(address, 0x560 + 0x90, "read ModuleScope hash vector")?;
        let mut bucket: usize = 0;
        while bucket < SCOPE_BUCKETS
            invariant
                bucket <= SCOPE_BUCKETS,
                classes_keyed_by_name(scope),
                runtime.memory() == memory,
                runtime.readable() == old(runtime).readable(),
                runtime.mappings() == old(runtime).mappings(),
                runtime.module_file() == old(runtime).module_file(),
                memory == old(runtime).memory(),
                scope_read_from(memory, address as int, scope),
            decreases SCOPE_BUCKETS - bucket,
        {
            let bucket_offset = checked_mul(bucket, 24, "ModuleScope bucket stride")? + 0x28;
            match runtime.read_u64(
                checked_addr(hash_vector, bucket_offset, "read ModuleScope bucket element")?,
            ) {
                Err(_) => {},
                Ok(first) => {
                    let mut current = first as usize;
                    let mut links: usize = 0;
                    while current != 0 && links < usize::MAX
                        invariant
                            classes_keyed_by_name(scope),
                            runtime.memory() == memory,
                            runtime.readable() == old(runtime).readable(),
                            runtime.mappings() == old(runtime).mappings(),
                            runtime.module_file() == old(runtime).module_file(),
                            memory == old(runtime).memory(),
                            scope_read_from(memory, address as int, scope),
                        decreases usize::MAX - links,
                    {
                        links = links + 1;
                        let data = match runtime.read_u64(
                            checked_addr(current, 0x10, "read ModuleScope class data pointer")?,
                        ) {
                            Ok(data) => data as usize,
                            Err(_) => {
                                break;
                            },
                        };
                        if data != 0 {
                            match Class::read(runtime, data) {
                                Ok(class) => {
                                    proof {
                                        lemma_insert_read_class(memory, scope.class_map(), class, data as int);
                                    }
                                    scope.add_class(class);
                                },
                                Err(_) => {},
                            }
                        }
                        let next = match runtime.read_u64(
                            checked_addr(current, 0x08, "read ModuleScope next element pointer")?,
                        ) {
                            Ok(next) => next,
                            Err(_) => {
                                break;
                            },
                        };
                        current = next as usize;
                    }
                },
            }
            bucket = bucket + 1;
        }
        let first_blob = match runtime.read_u64(
            checked_addr(address, 0x560 + 0x20, "read ModuleScope blob list")?,
        ) {
            Ok(blob) => blob,
            Err(_) => {
                return Ok(scope);
            },
        };
        let mut current_blob = first_blob as usize;
        let mut links: usize = 0;
        while current_blob != 0 && links < usize::MAX
            invariant
                classes_keyed_by_name(scope),
                runtime.memory() == memory,
                runtime.readable() == old(runtime).readable(),
                runtime.mappings() == old(runtime).mappings(),
                runtime.module_file() == old(runtime).module_file(),
                memory == old(runtime).memory(),
                scope_read_from(memory, address as int, scope),
            decreases usize::MAX - links,
        {
            links = links + 1;
            let data = match runtime.read_u64(
                checked_addr(current_blob, 0x10, "read ModuleScope blob class pointer")?,
            ) {
                Ok(data) => data as usize,
                Err(_) => {
                    break;
                },
            };
            match Class::read(runtime, data) {
                Ok(class) => {
                    proof {
                        lemma_insert_read_class(memory, scope.class_map(), class, data as int);
                    }
                    scope.add_class(class);
                },
                Err(_) => {},
            }
            let next = match runtime.read_u64(current_blob) {
                Ok(next) => next,
                Err(_) => {
                    break;
                },
            };
            current_blob = next as usize;
        }
        Ok(scope)
    }
}

/// Every scope is filed under its own name, which is not empty, and files its
/// classes under their names.
pub open spec fn scopes_keyed_by_name(schema: SchemaSystem) -> bool {
    forall|k: Seq<char>| #[trigger] schema.scope_map().contains_key(k) ==> {
        &&& k.len() > 0
        &&& schema.scope_map()[k].name_view() == k
        &&& classes_keyed_by_name(schema.scope_map()[k])
    }
}

/// Each scope of `scopes` was read from a scope description.
pub open spec fn all_scopes_read(memory: spec_fn(int) -> u8, scopes: Map<Seq<char>, ModuleScope>) -> bool {
    forall|k: Seq<char>| #[trigger] scopes.contains_key(k) ==> exists|a: int|
        #[trigger] scope_read_from(memory, a, scopes[k])
}

proof fn lemma_insert_read_scope(
    memory: spec_fn(int) -> u8,
    scopes: Map<Seq<char>, ModuleScope>,
    key: Seq<char>,
    scope: ModuleScope,
    address: int,
)
    requires
        all_scopes_read(memory, scopes),
        scope_read_from(memory, address, scope),
    ensures
        all_scopes_read(memory, scopes.insert(key, scope)),
{
    let after = scopes.insert(key, scope);
    assert forall|k: Seq<char>| #[trigger] after.contains_key(k) implies exists|a: int|
        #[trigger] scope_read_from(memory, a, after[k]) by {
        if k == key {
            assert(scope_read_from(memory, address, after[k]));
        } else {
            assert(scopes.contains_key(k));
            let a = choose|a: int| #[trigger] scope_read_from(memory, a, scopes[k]);
            assert(after[k] == scopes[k]);
            assert(scope_read_from(memory, a, after[k]));
        }
    }
}

impl SchemaSystem {
    /// Reads the schema system of the process: it is found through the
    /// `SCHEMA_SYSTEM_PATTERN` in `libschemasystem.so`, and each of its type
    /// scopes that can be read and has a name is kept.
    pub fn read<R: HeadlessRuntime>(runtime: &mut R) -> (r: Result<SchemaSystem, HeadlessError>)
        ensures
            final(runtime).memory() == old(runtime).memory(),
            final(runtime).readable() == old(runtime).readable(),
            final(runtime).mappings() == old(runtime).mappings(),
            final(runtime).module_file() == old(runtime).module_file(),
            r matches Ok(schema) ==> scopes_keyed_by_name(schema) && all_scopes_read(
                old(runtime).memory(),
                schema.scope_map(),
            ),
    {
        let ghost memory = runtime.memory();
        let schema_match = match runtime.scan_module_memory_pattern(
            "libschemasystem.so",
            SCHEMA_SYSTEM_PATTERN,
        )? {
            Some(address) => address,
            None => {
                return Err(
                    HeadlessError::PatternNotFound {
                        context: "failed to locate schema system pointer in libschemasystem.so",
                    },
                );
            },
        };
        let schema_system = runtime.read_relative_address(schema_match, 3, 7)?;
        let type_scopes_len = runtime.read_i32(
            checked_addr(schema_system, 0x1F0, "read SchemaSystem type_scopes_len")?,
        )?;
        let type_scopes_vec = runtime.read_u64(
            checked_addr(schema_system, 0x1F8, "read SchemaSystem type_scopes_vec")?,
        )? as usize;
        let count: usize = if type_scopes_len < 0 {
            0
        } else {
            type_scopes_len as usize
        };
        let mut schema = SchemaSystem::new();
        assert(all_scopes_read(memory, schema.scope_map()));
        let mut idx: usize = 0;
        while idx < count
            invariant
                idx <= count,
                scopes_keyed_by_name(schema),
                runtime.memory() == memory,
                runtime.readable() == old(runtime).readable(),
                runtime.mappings() == old(runtime).mappings(),
                runtime.module_file() == old(runtime).module_file(),
                memory == old(runtime).memory(),
                all_scopes_read(memory, schema.scope_map()),
            decreases count - idx,
        {
            let slot = checked_addr(
                type_scopes_vec,
                checked_mul(idx, 8, "SchemaSystem type scope pointer index")?,
                "read SchemaSystem type scope pointer",
            )?;
            if let Ok(scope_address) = runtime.read_u64(slot) {
                let scope_address = scope_address as usize;
                if scope_address != 0 {
                    if let Ok(scope) = ModuleScope::read(runtime, scope_address) {
                        if !scope.name().as_str().is_empty() {
                            let key = scope.name().clone();
                            proof {
                                lemma_insert_read_scope(memory, schema.scope_map(), key@, scope, scope_address as int);
                            }
                            schema.insert_scope(key, scope);
                        }
                    }
                }
            }
            idx = idx + 1;
        }
        Ok(schema)
    }
}

} // verus!
