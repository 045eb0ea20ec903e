//! The writer: turns values into Marshal bytes.
use vstd::prelude::*;
use vstd::string::StringExecFns;
use vstd::utf8::encode_utf8;

use indexmap::IndexSet;

use crate::packed::{packed_int, push_packed_int};
use crate::rb_types::sym::Sym;
use crate::ser::encoding::{enc_symbol, enc_value, find_symbol, marshal_bytes, with_len, SymTable};
use crate::ser::compound::{SerializeArray, SerializeHash, SerializeIvars};
use crate::ser::error::{Error, Kind, SerKindModel};
use crate::value::{
    field_models, lemma_field_models_index, lemma_models_index, lemma_pair_models_index, model,
    models, pair_models, RbFields, RbHash, Value, ValueModel,
};
use crate::ser::encoding::{enc_fields, enc_pairs, enc_values};

verus! {

broadcast use vstd::std_specs::vec::group_vec_axioms, vstd::seq::group_seq_axioms;

/// indexmap's `IndexSet`, the writer's table of the symbols written so far;
/// what it holds is known only through `set_items` and the three wrappers
/// below.
#[verifier::external_type_specification]
#[verifier::external_body]
#[verifier::reject_recursive_types(T)]
#[verifier::reject_recursive_types(S)]
pub struct ExIndexSet<T, S>(IndexSet<T, S>);

/// The texts that an `IndexSet` of strings holds, in insertion order.
pub uninterp spec fn set_items(s: IndexSet<String>) -> Seq<Seq<char>>;

/// `IndexSet::new`: a set that holds nothing.
#[verifier::external_body]
fn new_symbol_set() -> (s: IndexSet<String>)
    ensures
        set_items(s) == Seq::<Seq<char>>::empty(),
{
    IndexSet::new()
}

/// `IndexSet::get_index_of`: the place of an item equal to `text`, or `None`
/// when the set holds no such item.
#[verifier::external_body]
fn symbol_index(s: &IndexSet<String>, text: &str) -> (r: Option<usize>)
    ensures
        r matches Some(i) ==> i < set_items(*s).len() && set_items(*s)[i as int] == text@,
        r is None ==> !set_items(*s).contains(text@),
{
    s.get_index_of(text)
}

/// `IndexSet::insert`: adds `item` at the end when no equal item is in the
/// set, and reports whether it did; otherwise the set is left as it was.
#[verifier::external_body]
fn insert_symbol(s: &mut IndexSet<String>, item: String) -> (added: bool)
    ensures
        added == !set_items(*old(s)).contains(item@),
        added ==> set_items(*final(s)) == set_items(*old(s)).push(item@),
        !added ==> set_items(*final(s)) == set_items(*old(s)),
{
    s.insert(item)
}

/// `IndexSet::clone`: a set that holds the same items in the same order.
#[verifier::external_body]
fn clone_symbol_set(s: &IndexSet<String>) -> (r: IndexSet<String>)
    ensures
        set_items(r) == set_items(*s),
{
    s.clone()
}

/// What is known of a table of symbols that were each written once.
pub proof fn lemma_find_symbol(t: SymTable, s: Seq<char>)
    ensures
        find_symbol(t, s) >= 0 <==> t.contains(s),
        find_symbol(t, s) >= 0 ==> find_symbol(t, s) < t.len() && t[find_symbol(t, s)] == s,
        forall|i: int|
            #![trigger t[i]]
            0 <= i < t.len() && t[i] == s && t.no_duplicates() ==> find_symbol(t, s) == i,
    decreases t.len(),
{
    if t.len() > 0 {
        lemma_find_symbol(t.drop_last(), s);
        assert forall|i: int|
            #![trigger t[i]]
            0 <= i < t.len() && t[i] == s && t.no_duplicates() implies find_symbol(t, s) == i by {
            if i < t.len() - 1 {
                assert(t.drop_last()[i] == s);
                assert(t.drop_last().no_duplicates());
            } else {
                if find_symbol(t.drop_last(), s) >= 0 {
                    let j = find_symbol(t.drop_last(), s);
                    assert(t[j] == s);
                }
            }
        }
        if t.contains(s) {
            let k = choose|k: int| 0 <= k < t.len() && t[k] == s;
            if k < t.len() - 1 {
                assert(t.drop_last()[k] == s);
            }
        }
        if find_symbol(t.drop_last(), s) >= 0 {
            let j = find_symbol(t.drop_last(), s);
            assert(t[j] == t.drop_last()[j]);
        }
    }
}

/// The alox-48 serializer: writes Marshal bytes into `output`.
#[derive(Debug)]
pub struct Serializer {
    /// The underlying output of the serializer.
    pub output: Vec<u8>,
    symlink: IndexSet<String>,
}

impl Serializer {
    /// The symbols written so far, in the order they were first written.
    pub closed spec fn symbols(&self) -> SymTable {
        set_items(self.symlink)
    }

    /// The bytes written so far.
    pub closed spec fn written(&self) -> Seq<u8> {
        self.output@
    }

    /// The bytes written so far: the contents of `output`.
    pub fn output(&self) -> (o: &Vec<u8>)
        ensures
            o@ == self.written(),
    {
        &self.output
    }

    /// The table of symbols holds each symbol once.
    pub open spec fn wf(&self) -> bool {
        self.symbols().no_duplicates()
    }

    /// From `old` to `new` the writer put down the bytes `e.0`, and its table
    /// of symbols became `e.1`.
    pub open spec fn wrote(old: Serializer, new: Serializer, e: (Seq<u8>, SymTable)) -> bool {
        &&& new.wf()
        &&& new.written() == old.written() + e.0
        &&& new.symbols() == e.1
    }

    /// A serializer whose output holds the version bytes `4, 8`.
    pub fn new() -> (s: Serializer)
        ensures
            s.wf(),
            s.written() == seq![4u8, 8u8],
            s.symbols() == Seq::<Seq<char>>::empty(),
    {
        let mut output: Vec<u8> = Vec::new();
        output.push(4);
        output.push(8);
        Serializer { output, symlink: new_symbol_set() }
    }

    fn write_int(&mut self, v: i64)
        ensures
            final(self).output@ == old(self).output@ + packed_int(v),
            final(self).symlink == old(self).symlink,
    {
        push_packed_int(&mut self.output, v);
    }

    fn write(&mut self, b: u8)
        ensures
            final(self).output@ == old(self).output@.push(b),
            final(self).symlink == old(self).symlink,
    {
        self.output.push(b);
    }

    fn write_bytes(&mut self, bytes: &[u8])
        ensures
            final(self).output@ == old(self).output@ + bytes@,
            final(self).symlink == old(self).symlink,
    {
        let mut i: usize = 0;
        while i < bytes.len()
            invariant
                i <= bytes@.len(),
                self.output@ == old(self).output@ + bytes@.take(i as int),
                self.symlink == old(self).symlink,
            decreases bytes@.len() - i,
        {
            self.write(bytes[i]);
            assert(bytes@.take(i + 1) =~= bytes@.take(i as int).push(bytes@[i as int]));
            i = i + 1;
        }
        assert(bytes@.take(bytes@.len() as int) =~= bytes@);
    }

    fn write_bytes_len(&mut self, bytes: &[u8])
        ensures
            final(self).output@ == old(self).output@ + with_len(bytes@),
            final(self).symlink == old(self).symlink,
    {
        self.write_int(bytes.len() as i64);
        self.write_bytes(bytes);
        assert(final(self).output@ =~= old(self).output@ + with_len(bytes@));
    }

    fn write_symbol(&mut self, symbol: Sym)
        requires
            old(self).wf(),
        ensures
            final(self).wf(),
            final(self).output@ == old(self).output@ + enc_symbol(old(self).symbols(), symbol@).0,
            final(self).symbols() == enc_symbol(old(self).symbols(), symbol@).1,
    {
        let text = symbol.as_str();
        proof {
            lemma_find_symbol(self.symbols(), symbol@);
        }
        match symbol_index(&self.symlink, text) {
            Some(idx) => {
                self.write(0x3b);
                self.write_int(idx as i64);
                assert(final(self).output@ =~= old(self).output@ + enc_symbol(
                    old(self).symbols(),
                    symbol@,
                ).0);
            },
            None => {
                let ghost before = self.symbols();
                insert_symbol(&mut self.symlink, String::from_str(text));
                proof {
                    let after = self.symbols();
                    assert forall|i: int, j: int|
                        0 <= i < after.len() && 0 <= j < after.len() && i != j implies after[i]
                        != after[j] by {
                        if i < before.len() && j < before.len() {
                        } else if i == before.len() {
                            assert(after[j] == before[j]);
                        } else {
                            assert(after[i] == before[i]);
                        }
                    }
                }
                self.write(0x3a);
                let bytes = text.as_bytes();
                self.write_bytes_len(bytes);
                assert(final(self).output@ =~= old(self).output@ + enc_symbol(
                    old(self).symbols(),
                    symbol@,
                ).0);
            },
        }
    }
}

impl Serializer {
    fn serialize_elements(&mut self, a: &Vec<Value>)
        requires
            old(self).wf(),
        ensures
            final(self).wf(),
            final(self).written() == old(self).written() + enc_values(
                old(self).symbols(),
                models(a@),
            ).0,
            final(self).symbols() == enc_values(old(self).symbols(), models(a@)).1,
        decreases a,
    {
        let ghost ms = models(a@);
        let ghost t0 = self.symbols();
        proof {
            lemma_models_index(a@);
        }
        let mut i: usize = 0;
        while i < a.len()
            invariant
                self.wf(),
                i <= a@.len(),
                ms == models(a@),
                ms.len() == a@.len(),
                forall|j: int| 0 <= j < a@.len() ==> #[trigger] ms[j] == model(a@[j]),
                self.written() == old(self).written() + enc_values(t0, ms.take(i as int)).0,
                self.symbols() == enc_values(t0, ms.take(i as int)).1,
            decreases a@.len() - i,
        {
            proof {
                assert(ms.take(i + 1).subrange(0, i as int) =~= ms.take(i as int));
                assert(ms.take(i + 1)[i as int] == ms[i as int]);
            }
            self.serialize_value(&a[i]);
            i = i + 1;
        }
        assert(ms.take(a@.len() as int) =~= ms);
    }

    fn serialize_pairs(&mut self, h: &RbHash)
        requires
            old(self).wf(),
        ensures
            final(self).wf(),
            final(self).written() == old(self).written() + enc_pairs(
                old(self).symbols(),
                pair_models(h@),
            ).0,
            final(self).symbols() == enc_pairs(old(self).symbols(), pair_models(h@)).1,
        decreases h,
    {
        let ghost ms = pair_models(h@);
        let ghost t0 = self.symbols();
        proof {
            lemma_pair_models_index(h@);
        }
        let mut i: usize = 0;
        while i < h.len()
            invariant
                self.wf(),
                i <= h@.len(),
                ms == pair_models(h@),
                ms.len() == h@.len(),
                forall|j: int|
                    0 <= j < h@.len() ==> #[trigger] ms[j] == (model(h@[j].0), model(h@[j].1)),
                self.written() == old(self).written() + enc_pairs(t0, ms.take(i as int)).0,
                self.symbols() == enc_pairs(t0, ms.take(i as int)).1,
            decreases h@.len() - i,
        {
            proof {
                assert(ms.take(i + 1).subrange(0, i as int) =~= ms.take(i as int));
                assert(ms.take(i + 1)[i as int] == ms[i as int]);
            }
            let entry = &h[i];
            self.serialize_value(&entry.0);
            self.serialize_value(&entry.1);
            proof {
                let e = enc_pairs(t0, ms.take(i as int));
                let e2 = enc_value(e.1, ms[i as int].0);
                let e3 = enc_value(e2.1, ms[i as int].1);
                assert(self.written() =~= old(self).written() + (e.0 + e2.0 + e3.0));
            }
            i = i + 1;
        }
        assert(ms.take(h@.len() as int) =~= ms);
    }

    fn serialize_fields(&mut self, f: &RbFields)
        requires
            old(self).wf(),
        ensures
            final(self).wf(),
            final(self).written() == old(self).written() + enc_fields(
                old(self).symbols(),
                field_models(f@),
            ).0,
            final(self).symbols() == enc_fields(old(self).symbols(), field_models(f@)).1,
        decreases f,
    {
        let ghost ms = field_models(f@);
        let ghost t0 = self.symbols();
        proof {
            lemma_field_models_index(f@);
        }
        let mut i: usize = 0;
        while i < f.len()
            invariant
                self.wf(),
                i <= f@.len(),
                ms == field_models(f@),
                ms.len() == f@.len(),
                forall|j: int| 0 <= j < f@.len() ==> #[trigger] ms[j] == (f@[j].0@, model(f@[j].1)),
                self.written() == old(self).written() + enc_fields(t0, ms.take(i as int)).0,
                self.symbols() == enc_fields(t0, ms.take(i as int)).1,
            decreases f@.len() - i,
        {
            proof {
                assert(ms.take(i + 1).subrange(0, i as int) =~= ms.take(i as int));
                assert(ms.take(i + 1)[i as int] == ms[i as int]);
            }
            let entry = &f[i];
            self.write_symbol(entry.0.as_sym());
            self.serialize_value(&entry.1);
            proof {
                let e = enc_fields(t0, ms.take(i as int));
                let e2 = enc_symbol(e.1, ms[i as int].0);
                let e3 = enc_value(e2.1, ms[i as int].1);
                assert(self.written() =~= old(self).written() + (e.0 + e2.0 + e3.0));
            }
            i = i + 1;
        }
        assert(ms.take(f@.len() as int) =~= ms);
    }

    /// Writes a value: its tag byte and its contents, with each symbol that
    /// was written before replaced by a link to it.
    #[verifier::rlimit(60)]
    #[verifier::spinoff_prover]
    pub fn serialize_value(&mut self, v: &Value)
        requires
            old(self).wf(),
        ensures
            final(self).wf(),
            final(self).written() == old(self).written() + enc_value(old(self).symbols(), v@).0,
            final(self).symbols() == enc_value(old(self).symbols(), v@).1,
        decreases v,
    {
        let ghost w0 = self.written();
        let ghost t0 = self.symbols();
        match v {
            Value::Nil => {
                self.write(0x30);
            },
            Value::Bool(b) => {
                self.write(if *b { 0x54 } else { 0x46 });
            },
            Value::Integer(i) => {
                self.write(0x69);
                self.write_int(*i as i64);
                assert(self.written() =~= w0 + enc_value(t0, v@).0);
            },
            Value::Float(text) => {
                self.write(0x66);
                self.write_bytes_len(text.as_slice());
                assert(self.written() =~= w0 + enc_value(t0, v@).0);
            },
            Value::String(s) => {
                self.write(0x22);
                self.write_bytes_len(s.as_slice());
                assert(self.written() =~= w0 + enc_value(t0, v@).0);
            },
            Value::Symbol(s) => {
                self.write_symbol(s.as_sym());
            },
            Value::Array(a) => {
                self.write(0x5b);
                proof {
                    lemma_models_index(a@);
                }
                self.write_int(a.len() as i64);
                self.serialize_elements(a);
                assert(self.written() =~= w0 + enc_value(t0, v@).0);
            },
            Value::Hash(h) => {
                self.write(0x7b);
                proof {
                    lemma_pair_models_index(h@);
                }
                self.write_int(h.len() as i64);
                self.serialize_pairs(h);
                assert(self.written() =~= w0 + enc_value(t0, v@).0);
            },
            Value::Userdata(u) => {
                self.write(0x75);
                self.write_symbol(u.class.as_sym());
                self.write_bytes_len(u.data.as_slice());
                assert(self.written() =~= w0 + enc_value(t0, v@).0);
            },
            Value::Object(o) => {
                self.write(0x6f);
                self.write_symbol(o.class.as_sym());
                proof {
                    lemma_field_models_index(o.fields@);
                }
                self.write_int(o.fields.len() as i64);
                self.serialize_fields(&o.fields);
                assert(self.written() =~= w0 + enc_value(t0, v@).0);
            },
            Value::Instance(inst) => {
                proof {
                    lemma_field_models_index(inst.fields@);
                }
                if inst.fields.len() == 0 {
                    self.serialize_value(&inst.value);
                } else {
                    self.write(0x49);
                    self.serialize_value(&inst.value);
                    self.write_int(inst.fields.len() as i64);
                    self.serialize_fields(&inst.fields);
                    assert(self.written() =~= w0 + enc_value(t0, v@).0);
                }
            },
            Value::Regex { data, flags } => {
                self.write(0x2f);
                self.write_bytes_len(data.as_slice());
                self.write(*flags);
                assert(self.written() =~= w0 + enc_value(t0, v@).0);
            },
            Value::RbStruct(st) => {
                self.write(0x53);
                self.write_symbol(st.class.as_sym());
                proof {
                    lemma_field_models_index(st.fields@);
                }
                self.write_int(st.fields.len() as i64);
                self.serialize_fields(&st.fields);
                assert(self.written() =~= w0 + enc_value(t0, v@).0);
            },
            Value::Class(c) => {
                self.write(0x63);
                self.write_bytes_len(c.as_str().as_bytes());
                assert(self.written() =~= w0 + enc_value(t0, v@).0);
            },
            Value::Module(m) => {
                self.write(0x6d);
                self.write_bytes_len(m.as_str().as_bytes());
                assert(self.written() =~= w0 + enc_value(t0, v@).0);
            },
            Value::Extended { module, value } => {
                self.write(0x65);
                self.write_symbol(module.as_sym());
                self.serialize_value(value);
                assert(self.written() =~= w0 + enc_value(t0, v@).0);
            },
            Value::UserClass { class, value } => {
                self.write(0x43);
                self.write_symbol(class.as_sym());
                self.serialize_value(value);
                assert(self.written() =~= w0 + enc_value(t0, v@).0);
            },
            Value::UserMarshal { class, value } => {
                self.write(0x55);
                self.write_symbol(class.as_sym());
                self.serialize_value(value);
                assert(self.written() =~= w0 + enc_value(t0, v@).0);
            },
            Value::Data { class, value } => {
                self.write(0x64);
                self.write_symbol(class.as_sym());
                self.serialize_value(value);
                assert(self.written() =~= w0 + enc_value(t0, v@).0);
            },
        }
    }
}

impl Serializer {
    /// Writes `nil`.
    ///
    /// # Errors
    /// Never fails.
    pub fn serialize_nil(&mut self) -> (r: Result<(), Error>)
        requires
            old(self).wf(),
        ensures
            r is Ok,
            Self::wrote(*old(self), *final(self), enc_value(old(self).symbols(), ValueModel::Nil)),
    {
        self.write(0x30);
        assert(self.written() =~= old(self).written() + enc_value(old(self).symbols(), ValueModel::Nil).0);
        Ok(())
    }

    /// Writes `true` or `false`.
    ///
    /// # Errors
    /// Never fails.
    pub fn serialize_bool(&mut self, v: bool) -> (r: Result<(), Error>)
        requires
            old(self).wf(),
        ensures
            r is Ok,
            Self::wrote(*old(self), *final(self), enc_value(old(self).symbols(), ValueModel::Bool(v))),
    {
        self.write(if v { 0x54 } else { 0x46 });
        assert(self.written() =~= old(self).written() + enc_value(old(self).symbols(), ValueModel::Bool(v)).0);
        Ok(())
    }

    /// Writes an integer.
    ///
    /// # Errors
    /// Never fails.
    pub fn serialize_i32(&mut self, v: i32) -> (r: Result<(), Error>)
        requires
            old(self).wf(),
        ensures
            r is Ok,
            Self::wrote(*old(self), *final(self), enc_value(old(self).symbols(), ValueModel::Integer(v))),
    {
        self.write(0x69);
        self.write_int(v as i64);
        assert(self.written() =~= old(self).written() + enc_value(old(self).symbols(), ValueModel::Integer(v)).0);
        Ok(())
    }

    /// Writes a float given by the text that Marshal stores for it.
    ///
    /// # Errors
    /// Never fails.
    pub fn serialize_float_text(&mut self, text: &[u8]) -> (r: Result<(), Error>)
        requires
            old(self).wf(),
        ensures
            r is Ok,
            Self::wrote(*old(self), *final(self), enc_value(old(self).symbols(), ValueModel::Float(text@))),
    {
        self.write(0x66);
        self.write_bytes_len(text);
        assert(self.written() =~= old(self).written() + enc_value(old(self).symbols(), ValueModel::Float(text@)).0);
        Ok(())
    }

    /// Writes a string of bytes.
    ///
    /// # Errors
    /// Never fails.
    pub fn serialize_string(&mut self, data: &[u8]) -> (r: Result<(), Error>)
        requires
            old(self).wf(),
        ensures
            r is Ok,
            Self::wrote(*old(self), *final(self), enc_value(old(self).symbols(), ValueModel::String(data@))),
    {
        self.write(0x22);
        self.write_bytes_len(data);
        assert(self.written() =~= old(self).written() + enc_value(old(self).symbols(), ValueModel::String(data@)).0);
        Ok(())
    }

    /// Writes a symbol, or a link to it when it was written before.
    ///
    /// # Errors
    /// Never fails.
    pub fn serialize_symbol(&mut self, sym: &Sym) -> (r: Result<(), Error>)
        requires
            old(self).wf(),
        ensures
            r is Ok,
            Self::wrote(*old(self), *final(self), enc_symbol(old(self).symbols(), sym@)),
    {
        self.write_symbol(*sym);
        Ok(())
    }

    /// Writes a regular expression: its source and its flags.
    ///
    /// # Errors
    /// Never fails.
    pub fn serialize_regular_expression(&mut self, regex: &[u8], flags: u8) -> (r: Result<(), Error>)
        requires
            old(self).wf(),
        ensures
            r is Ok,
            Self::wrote(*old(self), *final(self), enc_value(old(self).symbols(), ValueModel::Regex(regex@, flags))),
    {
        self.write(0x2f);
        self.write_bytes_len(regex);
        self.write(flags);
        assert(self.written() =~= old(self).written() + enc_value(old(self).symbols(), ValueModel::Regex(regex@, flags)).0);
        Ok(())
    }

    /// Writes a class by name (as text, not as a symbol).
    ///
    /// # Errors
    /// Never fails.
    pub fn serialize_class(&mut self, class: &Sym) -> (r: Result<(), Error>)
        requires
            old(self).wf(),
        ensures
            r is Ok,
            Self::wrote(*old(self), *final(self), enc_value(old(self).symbols(), ValueModel::Class(class@))),
    {
        self.write(0x63);
        self.write_bytes_len(class.as_str().as_bytes());
        assert(self.written() =~= old(self).written() + enc_value(old(self).symbols(), ValueModel::Class(class@)).0);
        Ok(())
    }

    /// Writes a module by name (as text, not as a symbol).
    ///
    /// # Errors
    /// Never fails.
    pub fn serialize_module(&mut self, module: &Sym) -> (r: Result<(), Error>)
        requires
            old(self).wf(),
        ensures
            r is Ok,
            Self::wrote(*old(self), *final(self), enc_value(old(self).symbols(), ValueModel::Module(module@))),
    {
        self.write(0x6d);
        self.write_bytes_len(module.as_str().as_bytes());
        assert(self.written() =~= old(self).written() + enc_value(old(self).symbols(), ValueModel::Module(module@)).0);
        Ok(())
    }

    /// Writes user data: its class, then the bytes with their length.
    ///
    /// # Errors
    /// Never fails.
    pub fn serialize_user_data(&mut self, class: &Sym, data: &[u8]) -> (r: Result<(), Error>)
        requires
            old(self).wf(),
        ensures
            r is Ok,
            Self::wrote(*old(self), *final(self), enc_value(old(self).symbols(), ValueModel::Userdata(class@, data@))),
    {
        self.write(0x75);
        self.write_symbol(*class);
        self.write_bytes_len(data);
        assert(self.written() =~= old(self).written() + enc_value(old(self).symbols(), ValueModel::Userdata(class@, data@)).0);
        Ok(())
    }

    /// Writes a value extended with a module: the module, then the value.
    ///
    /// # Errors
    /// Never fails.
    pub fn serialize_extended(&mut self, module: &Sym, value: &Value) -> (r: Result<(), Error>)
        requires
            old(self).wf(),
        ensures
            r is Ok,
            Self::wrote(*old(self), *final(self), enc_value(old(self).symbols(), ValueModel::Extended(module@, Box::new(value@)))),
    {
        self.write(0x65);
        self.write_symbol(*module);
        self.serialize_value(value);
        assert(self.written() =~= old(self).written() + enc_value(old(self).symbols(), ValueModel::Extended(module@, Box::new(value@))).0);
        Ok(())
    }

    /// Writes a value of a subclass of a core class: the class, then the value.
    ///
    /// # Errors
    /// Never fails.
    pub fn serialize_user_class(&mut self, class: &Sym, value: &Value) -> (r: Result<(), Error>)
        requires
            old(self).wf(),
        ensures
            r is Ok,
            Self::wrote(*old(self), *final(self), enc_value(old(self).symbols(), ValueModel::UserClass(class@, Box::new(value@)))),
    {
        self.write(0x43);
        self.write_symbol(*class);
        self.serialize_value(value);
        assert(self.written() =~= old(self).written() + enc_value(old(self).symbols(), ValueModel::UserClass(class@, Box::new(value@))).0);
        Ok(())
    }

    /// Writes an object dumped as another value: the class, then the value.
    ///
    /// # Errors
    /// Never fails.
    pub fn serialize_user_marshal(&mut self, class: &Sym, value: &Value) -> (r: Result<(), Error>)
        requires
            old(self).wf(),
        ensures
            r is Ok,
            Self::wrote(*old(self), *final(self), enc_value(old(self).symbols(), ValueModel::UserMarshal(class@, Box::new(value@)))),
    {
        self.write(0x55);
        self.write_symbol(*class);
        self.serialize_value(value);
        assert(self.written() =~= old(self).written() + enc_value(old(self).symbols(), ValueModel::UserMarshal(class@, Box::new(value@))).0);
        Ok(())
    }

    /// Writes C extension data: the class, then the value.
    ///
    /// # Errors
    /// Never fails.
    pub fn serialize_data(&mut self, class: &Sym, value: &Value) -> (r: Result<(), Error>)
        requires
            old(self).wf(),
        ensures
            r is Ok,
            Self::wrote(*old(self), *final(self), enc_value(old(self).symbols(), ValueModel::Data(class@, Box::new(value@)))),
    {
        self.write(0x64);
        self.write_symbol(*class);
        self.serialize_value(value);
        assert(self.written() =~= old(self).written() + enc_value(old(self).symbols(), ValueModel::Data(class@, Box::new(value@))).0);
        Ok(())
    }

    /// Begins a hash of `len` entries.
    ///
    /// # Errors
    /// Never fails.
    pub fn serialize_hash(&mut self, len: usize) -> (r: Result<SerializeHash, Error>)
        requires
            old(self).wf(),
        ensures
            r matches Ok(h) && h.announced() == len && h.begun() == 0,
            Self::wrote(*old(self), *final(self), (seq![0x7bu8] + packed_int(len as i64), old(self).symbols())),
    {
        self.write(0x7b);
        self.write_int(len as i64);
        assert(self.written() =~= old(self).written() + (seq![0x7bu8] + packed_int(len as i64)));
        Ok(SerializeHash::new(len))
    }

    /// Begins an array of `len` elements.
    ///
    /// # Errors
    /// Never fails.
    pub fn serialize_array(&mut self, len: usize) -> (r: Result<SerializeArray, Error>)
        requires
            old(self).wf(),
        ensures
            r matches Ok(a) && a.announced() == len && a.begun() == 0,
            Self::wrote(*old(self), *final(self), (seq![0x5bu8] + packed_int(len as i64), old(self).symbols())),
    {
        self.write(0x5b);
        self.write_int(len as i64);
        assert(self.written() =~= old(self).written() + (seq![0x5bu8] + packed_int(len as i64)));
        Ok(SerializeArray::new(len))
    }

    /// Begins an object of class `class` with `len` instance variables.
    ///
    /// # Errors
    /// Never fails.
    pub fn serialize_object(&mut self, class: &Sym, len: usize) -> (r: Result<SerializeIvars, Error>)
        requires
            old(self).wf(),
        ensures
            r matches Ok(f) && f.announced() == len && f.begun() == 0,
            Self::wrote(*old(self), *final(self), ({
                let (cb, t1) = enc_symbol(old(self).symbols(), class@);
                (seq![0x6fu8] + cb + packed_int(len as i64), t1)
            })),
    {
        self.write(0x6f);
        self.write_symbol(*class);
        self.write_int(len as i64);
        assert(self.written() =~= old(self).written() + (seq![0x6fu8] + enc_symbol(old(self).symbols(), class@).0 + packed_int(len as i64)));
        Ok(SerializeIvars::new(len))
    }

    /// Begins a struct named `name` with `len` members.
    ///
    /// # Errors
    /// Never fails.
    pub fn serialize_struct(&mut self, name: &Sym, len: usize) -> (r: Result<SerializeIvars, Error>)
        requires
            old(self).wf(),
        ensures
            r matches Ok(f) && f.announced() == len && f.begun() == 0,
            Self::wrote(*old(self), *final(self), ({
                let (cb, t1) = enc_symbol(old(self).symbols(), name@);
                (seq![0x53u8] + cb + packed_int(len as i64), t1)
            })),
    {
        self.write(0x53);
        self.write_symbol(*name);
        self.write_int(len as i64);
        assert(self.written() =~= old(self).written() + (seq![0x53u8] + enc_symbol(old(self).symbols(), name@).0 + packed_int(len as i64)));
        Ok(SerializeIvars::new(len))
    }

    /// Begins a value with `len` instance variables attached: the value,
    /// then the variables.
    ///
    /// # Errors
    /// Never fails.
    pub fn serialize_instance(&mut self, value: &Value, len: usize) -> (r: Result<SerializeIvars, Error>)
        requires
            old(self).wf(),
        ensures
            r matches Ok(f) && f.announced() == len && f.begun() == 0,
            Self::wrote(*old(self), *final(self), ({
                let (vb, t1) = enc_value(old(self).symbols(), value@);
                (seq![0x49u8] + vb + packed_int(len as i64), t1)
            })),
    {
        self.write(0x49);
        self.serialize_value(value);
        self.write_int(len as i64);
        assert(self.written() =~= old(self).written() + (seq![0x49u8] + enc_value(old(self).symbols(), value@).0 + packed_int(len as i64)));
        Ok(SerializeIvars::new(len))
    }
}

/// The model of a Rust string as Ruby keeps it: the UTF-8 bytes, with the
/// instance variable `E` set to `true` to mark the encoding.
pub open spec fn utf8_string(s: Seq<char>) -> ValueModel {
    ValueModel::Instance(
        Box::new(ValueModel::String(encode_utf8(s))),
        seq![("E"@, ValueModel::Bool(true))],
    )
}

impl Serializer {
    /// Writes a Rust string as a Ruby string marked as UTF-8.
    ///
    /// # Errors
    /// Never fails.
    pub fn serialize_rust_string(&mut self, string: &str) -> (r: Result<(), Error>)
        requires
            old(self).wf(),
        ensures
            r is Ok,
            Self::wrote(*old(self), *final(self), enc_value(old(self).symbols(), utf8_string(string@))),
    {
        let ghost t0 = self.symbols();
        let ghost w0 = self.written();
        self.write(0x49);
        self.serialize_string(string.as_bytes())?;
        self.write_int(1);
        let e = Sym::new("E");
        let ghost t1 = self.symbols();
        let ghost w1 = self.written();
        self.write_symbol(e);
        self.serialize_bool(true)?;
        proof {
            reveal_strlit("E");
            let f = seq![("E"@, ValueModel::Bool(true))];
            let inner = ValueModel::String(encode_utf8(string@));
            assert(f.subrange(0, 0) =~= Seq::<(Seq<char>, ValueModel)>::empty());
            assert(enc_fields(t1, f.subrange(0, 0)) == (Seq::<u8>::empty(), t1));
            assert(f.len() == 1 && f[0] == ("E"@, ValueModel::Bool(true)));
            let (kb, tk) = enc_symbol(t1, "E"@);
            let (vb, tv) = enc_value(tk, ValueModel::Bool(true));
            assert(enc_fields(t1, f) == (Seq::<u8>::empty() + kb + vb, tv));
            assert(self.written() =~= w0 + (seq![0x49u8] + enc_value(t0, inner).0 + packed_int(1) + (Seq::<u8>::empty() + kb + vb)));
        }
        Ok(())
    }

    /// Writes an array of the given elements.
    ///
    /// # Errors
    /// Never fails.
    pub fn collect_array(&mut self, items: &[Value]) -> (r: Result<(), Error>)
        requires
            old(self).wf(),
        ensures
            r is Ok,
            Self::wrote(*old(self), *final(self), enc_value(old(self).symbols(), ValueModel::Array(models(items@)))),
    {
        let ghost ms = models(items@);
        let ghost t0 = self.symbols();
        let ghost w0 = self.written();
        proof {
            lemma_models_index(items@);
        }
        let mut a = self.serialize_array(items.len())?;
        let ghost head = self.written();
        let mut i: usize = 0;
        while i < items.len()
            invariant
                self.wf(),
                i <= items@.len(),
                a.begun() == i,
                a.announced() == items@.len(),
                ms == models(items@),
                ms.len() == items@.len(),
                forall|j: int| 0 <= j < items@.len() ==> #[trigger] ms[j] == model(items@[j]),
                head == w0 + (seq![0x5bu8] + packed_int(items@.len() as i64)),
                self.written() == head + enc_values(t0, ms.take(i as int)).0,
                self.symbols() == enc_values(t0, ms.take(i as int)).1,
            decreases items@.len() - i,
        {
            proof {
                assert(ms.take(i + 1).subrange(0, i as int) =~= ms.take(i as int));
                assert(ms.take(i + 1)[i as int] == ms[i as int]);
            }
            a.serialize_element(self, &items[i])?;
            proof {
                let e = enc_values(t0, ms.take(i as int));
                let e2 = enc_value(e.1, ms[i as int]);
                assert(self.written() =~= head + (e.0 + e2.0));
            }
            i = i + 1;
        }
        proof {
            assert(ms.take(items@.len() as int) =~= ms);
            assert(self.written() =~= w0 + enc_value(t0, ValueModel::Array(ms)).0);
        }
        a.end()
    }

    /// Writes a hash of the given entries, in their order, each as it is.
    ///
    /// # Errors
    /// Never fails.
    pub fn collect_hash(&mut self, entries: &[(Value, Value)]) -> (r: Result<(), Error>)
        requires
            old(self).wf(),
        ensures
            r is Ok,
            Self::wrote(*old(self), *final(self), enc_value(old(self).symbols(), ValueModel::Hash(pair_models(entries@)))),
    {
        let ghost ms = pair_models(entries@);
        let ghost t0 = self.symbols();
        let ghost w0 = self.written();
        proof {
            lemma_pair_models_index(entries@);
        }
        let mut h = self.serialize_hash(entries.len())?;
        let ghost head = self.written();
        let mut i: usize = 0;
        while i < entries.len()
            invariant
                self.wf(),
                i <= entries@.len(),
                h.begun() == i,
                h.announced() == entries@.len(),
                ms == pair_models(entries@),
                ms.len() == entries@.len(),
                forall|j: int|
                    0 <= j < entries@.len() ==> #[trigger] ms[j] == (model(entries@[j].0), model(entries@[j].1)),
                head == w0 + (seq![0x7bu8] + packed_int(entries@.len() as i64)),
                self.written() == head + enc_pairs(t0, ms.take(i as int)).0,
                self.symbols() == enc_pairs(t0, ms.take(i as int)).1,
            decreases entries@.len() - i,
        {
            proof {
                assert(ms.take(i + 1).subrange(0, i as int) =~= ms.take(i as int));
                assert(ms.take(i + 1)[i as int] == ms[i as int]);
            }
            let entry = &entries[i];
            h.serialize_entry(self, &entry.0, &entry.1)?;
            proof {
                let e = enc_pairs(t0, ms.take(i as int));
                let e2 = enc_value(e.1, ms[i as int].0);
                let e3 = enc_value(e2.1, ms[i as int].1);
                assert(self.written() =~= head + (e.0 + e2.0 + e3.0));
            }
            i = i + 1;
        }
        proof {
            assert(ms.take(entries@.len() as int) =~= ms);
            assert(self.written() =~= w0 + enc_value(t0, ValueModel::Hash(ms)).0);
        }
        h.end()
    }
}

impl Default for Serializer {
    /// A serializer whose output holds the version bytes `4, 8`.
    fn default() -> (s: Serializer)
        ensures
            s.wf(),
            s.written() == seq![4u8, 8u8],
            s.symbols() == Seq::<Seq<char>>::empty(),
    {
        Serializer::new()
    }
}

impl Clone for Serializer {
    /// A serializer with the same output and the same table of symbols.
    fn clone(&self) -> (s: Serializer)
        ensures
            s.written() == self.written(),
            s.symbols() == self.symbols(),
    {
        Serializer {
            output: vstd::slice::slice_to_vec(self.output.as_slice()),
            symlink: clone_symbol_set(&self.symlink),
        }
    }
}

/// Writes a value as a Marshal document: the version bytes `4, 8`, then the
/// value.
///
/// # Errors
/// Writing a value never fails.
pub fn to_bytes(value: &Value) -> (r: Result<Vec<u8>, Error>)
    ensures
        r matches Ok(bytes) && bytes@ == marshal_bytes(value@),
{
    let mut s = Serializer::new();
    s.serialize_value(value);
    Ok(s.output)
}

} // verus!
