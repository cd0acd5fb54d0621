use vstd::prelude::*;
use vstd::utf8::encode_utf8;

verus! {

/// Total byte length of a sequence of text values.
pub open spec fn str_list_bytes(l: Seq<String>) -> nat
    decreases l.len(),
{
    if l.len() == 0 {
        0
    } else {
        str_list_bytes(l.drop_last()) + encode_utf8(l.last()@).len()
    }
}

/// What every stored data kind reports about itself: a type tag and the
/// memory its payload occupies.
pub trait DataType {
    spec fn spec_size(&self) -> nat;

    spec fn spec_name(&self) -> Seq<char>;

    fn kind_name(&self) -> (r: &str)
        ensures
            r@ == self.spec_name(),
    ;

    fn memory_usage(&self) -> (r: usize)
        requires
            self.spec_size() <= usize::MAX,
        ensures
            r as nat == self.spec_size(),
    ;
}

/// A plain text value.
#[derive(Debug)]
pub struct RedisString {
    pub value: String,
}

impl RedisString {
    pub fn new(value: String) -> (r: Self)
        ensures
            r.value@ == value@,
    {
        RedisString { value }
    }

    pub fn get(&self) -> (r: &str)
        ensures
            r@ == self.value@,
    {
        self.value.as_str()
    }

    pub fn set(&mut self, value: String)
        ensures
            final(self).value@ == value@,
    {
        self.value = value;
    }
}

impl Clone for RedisString {
    fn clone(&self) -> (r: Self)
        ensures
            r.value@ == self.value@,
    {
        RedisString { value: self.value.clone() }
    }
}

impl DataType for RedisString {
    open spec fn spec_size(&self) -> nat {
        encode_utf8(self.value@).len()
    }

    open spec fn spec_name(&self) -> Seq<char> {
        "string"@
    }

    fn kind_name(&self) -> (r: &str) {
        let r = "string";
        proof {
            reveal_strlit("string");
        }
        r
    }

    fn memory_usage(&self) -> (r: usize) {
        self.value.as_str().len()
    }
}

/// An ordered sequence of text values with head and tail operations. The
/// head operations deliberately mirror the behaviour callers rely on:
/// `push_head` inserts at the front, `pop_head` takes from the back, and
/// `pop_tail` takes from the front.
#[derive(Debug)]
pub struct RedisList {
    pub values: Vec<String>,
}

impl RedisList {
    pub fn new() -> (r: Self)
        ensures
            r.values@.len() == 0,
    {
        RedisList { values: Vec::new() }
    }

    pub fn push_head(&mut self, value: String)
        ensures
            final(self).values@ == old(self).values@.insert(0, value),
    {
        self.values.insert(0, value);
    }

    pub fn push_tail(&mut self, value: String)
        ensures
            final(self).values@ == old(self).values@.push(value),
    {
        self.values.push(value);
    }

    pub fn pop_head(&mut self) -> (r: Option<String>)
        ensures
            ({
                let v = old(self).values@;
                if v.len() == 0 {
                    r is None && final(self).values@ == v
                } else {
                    r matches Some(s) && s == v.last() && final(self).values@ == v.drop_last()
                }
            }),
    {
        if self.values.len() == 0 {
            None
        } else {
            self.values.pop()
        }
    }

    pub fn pop_tail(&mut self) -> (r: Option<String>)
        ensures
            ({
                let v = old(self).values@;
                if v.len() == 0 {
                    r is None && final(self).values@ == v
                } else {
                    r matches Some(s) && s == v.first() && final(self).values@ == v.drop_first()
                }
            }),
    {
        if self.values.len() == 0 {
            None
        } else {
            Some(self.values.remove(0))
        }
    }

    pub fn len(&self) -> (r: usize)
        ensures
            r == self.values@.len(),
    {
        self.values.len()
    }
}

impl Clone for RedisList {
    fn clone(&self) -> (r: Self)
        ensures
            r.values@.len() == self.values@.len(),
            forall|i: int|
                0 <= i < self.values@.len() ==> (#[trigger] r.values@[i])@ == self.values@[i]@,
    {
        let mut out: Vec<String> = Vec::new();
        let mut i: usize = 0;
        while i < self.values.len()
            invariant
                i <= self.values@.len(),
                out@.len() == i,
                forall|j: int| 0 <= j < i ==> (#[trigger] out@[j])@ == self.values@[j]@,
            decreases self.values@.len() - i,
        {
            out.push(self.values[i].clone());
            i = i + 1;
        }
        RedisList { values: out }
    }
}

impl DataType for RedisList {
    open spec fn spec_size(&self) -> nat {
        str_list_bytes(self.values@)
    }

    open spec fn spec_name(&self) -> Seq<char> {
        "list"@
    }

    fn kind_name(&self) -> (r: &str) {
        let r = "list";
        proof {
            reveal_strlit("list");
        }
        r
    }

    fn memory_usage(&self) -> (r: usize) {
        let ghost l = self.values@;
        let mut total: usize = 0;
        let mut i: usize = 0;
        proof {
            assert(l.take(0) =~= Seq::<String>::empty());
        }
        while i < self.values.len()
            invariant
                i <= l.len(),
                l == self.values@,
                total == str_list_bytes(l.take(i as int)),
                str_list_bytes(l) <= usize::MAX,
            decreases l.len() - i,
        {
            proof {
                assert(l.take(i + 1).drop_last() =~= l.take(i as int));
                assert(l.take(i + 1).last() == l[i as int]);
                lemma_str_list_bytes_take_mono(l, i + 1);
            }
            total = total + self.values[i].as_str().len();
            i = i + 1;
        }
        proof {
            assert(l.take(i as int) =~= l);
        }
        total
    }
}

proof fn lemma_str_list_bytes_take_mono(l: Seq<String>, i: int)
    requires
        0 <= i <= l.len(),
    ensures
        str_list_bytes(l.take(i)) <= str_list_bytes(l),
    decreases l.len() - i,
{
    if i == l.len() {
        assert(l.take(i) =~= l);
    } else {
        assert(l.take(i + 1).drop_last() =~= l.take(i));
        assert(l.take(i + 1).last() == l[i]);
        lemma_str_list_bytes_take_mono(l, i + 1);
    }
}

} // verus!
