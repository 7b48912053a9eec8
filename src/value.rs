//! The SQL scalar carried by the change log, and the rows of that log.
use vstd::prelude::*;
use vstd::string::{StrSliceExecFns, StringSliceAdditionalSpecFns};

verus! {

/// Number of bytes of the UTF-8 encoding of `s`, as `str::len` reports it.
pub open spec fn utf8_len(s: Seq<char>) -> nat {
    (vstd::utf8::encode_utf8(s).len() as usize) as nat
}

/// The bytes a changeset counts for its two versions, eight bytes each.
pub const VERSION_BYTES: usize = 16;

/// A value of one of SQLite's five storage classes.
///
/// A real is held as the bit pattern of its IEEE-754 binary64 encoding, so
/// that it travels through the change log unchanged.
#[derive(Debug, Clone, PartialEq)]
pub enum Value {
    Null,
    Integer(i64),
    Real(u64),
    Text(String),
    Blob(Vec<u8>),
}

impl Value {
    /// Bytes used when buffering: nothing for null, eight for numbers, the
    /// byte length of a text or blob.
    pub open spec fn spec_size(&self) -> nat {
        match self {
            Value::Null => 0,
            Value::Integer(_) => 8,
            Value::Real(_) => 8,
            Value::Text(t) => utf8_len(t@),
            Value::Blob(b) => b@.len(),
        }
    }

    pub fn size(&self) -> (r: usize)
        ensures
            r == self.spec_size(),
    {
        match self {
            Value::Null => 0,
            Value::Integer(_) => 8,
            Value::Real(_) => 8,
            Value::Text(value) => value.as_str().len(),
            Value::Blob(value) => value.len(),
        }
    }

    /// A text value as the change log stores it: between single quotes.
    pub fn text(value: &str) -> (r: Value)
        ensures
            r matches Value::Text(t) && t@ == seq!['\''] + value@ + seq!['\''],
    {
        let quote = "'";
        proof {
            reveal_strlit("'");
        }
        let t = quote.to_owned().concat(value).concat(quote);
        Value::Text(t)
    }
}

/// Whether `s` is written as the change log writes a text: between single
/// quotes.
pub open spec fn quoted(s: Seq<char>) -> bool {
    s.len() >= 2 && s[0] == '\'' && s.last() == '\''
}

impl Value {
    /// The value that a string of the change log's JSON stands for, given the
    /// bytes its base64 decoding gave, if it decoded: a text of the change log
    /// is quoted, and a blob is written in base64, which has no quotes.
    pub fn from_wire_string(text: String, decoded: Option<Vec<u8>>) -> (r: Value)
        ensures
            quoted(text@) ==> (r matches Value::Text(t) && t@ == text@),
            !quoted(text@) && decoded is Some ==> (r matches Value::Blob(b) && b@
                == decoded->0@),
            !quoted(text@) && decoded is None ==> (r matches Value::Text(t) && t@ == text@),
    {
        let n = text.as_str().unicode_len();
        let is_quoted = n >= 2 && text.as_str().get_char(0) == '\'' && text.as_str().get_char(n - 1)
            == '\'';
        if is_quoted {
            return Value::Text(text);
        }
        match decoded {
            Some(bytes) => Value::Blob(bytes),
            None => Value::Text(text),
        }
    }
}

/// One row of the change log of a replicated database.
#[derive(Debug, Clone)]
pub struct Changeset {
    table: String,
    pk: Value,
    cid: Option<String>,
    val: Value,
    col_version: i64,
    db_version: i64,
    site_id: Vec<u8>,
}

impl Changeset {
    pub fn new(
        table: String,
        pk: Value,
        cid: Option<String>,
        val: Value,
        col_version: i64,
        db_version: i64,
        site_id: Vec<u8>,
    ) -> (r: Changeset)
        ensures
            r.spec_table() == table@,
            r.spec_pk() == pk,
            r.spec_cid() == cid,
            r.spec_val() == val,
            r.spec_col_version() == col_version,
            r.spec_db_version() == db_version,
            r.spec_site_id() == site_id@,
    {
        Changeset { table, pk, cid, val, col_version, db_version, site_id }
    }

    pub closed spec fn spec_table(&self) -> Seq<char> {
        self.table@
    }

    pub closed spec fn spec_pk(&self) -> Value {
        self.pk
    }

    pub closed spec fn spec_cid(&self) -> Option<String> {
        self.cid
    }

    pub closed spec fn spec_val(&self) -> Value {
        self.val
    }

    pub closed spec fn spec_col_version(&self) -> i64 {
        self.col_version
    }

    pub closed spec fn spec_db_version(&self) -> i64 {
        self.db_version
    }

    pub closed spec fn spec_site_id(&self) -> Seq<u8> {
        self.site_id@
    }

    /// Bytes the row counts for when changes are buffered.
    pub open spec fn spec_size(&self) -> nat {
        let cid: nat = match self.spec_cid() {
            Some(c) => utf8_len(c@),
            None => 0,
        };
        (utf8_len(self.spec_table()) + self.spec_pk().spec_size() + cid + self.spec_val().spec_size()
            + VERSION_BYTES + self.spec_site_id().len()) as nat
    }

    /// The buffering size, or `usize::MAX` where it does not fit.
    pub fn size(&self) -> (r: usize)
        ensures
            r == (if self.spec_size() > usize::MAX {
                usize::MAX as nat
            } else {
                self.spec_size()
            }),
    {
        let cid: usize = match &self.cid {
            Some(c) => c.as_str().len(),
            None => 0,
        };
        let r = self.table.as_str().len().saturating_add(self.pk.size()).saturating_add(
            cid,
        ).saturating_add(self.val.size()).saturating_add(VERSION_BYTES).saturating_add(
            self.site_id.len(),
        );
        r
    }

    pub fn table(&self) -> (r: &str)
        ensures
            r@ == self.spec_table(),
    {
        self.table.as_str()
    }

    pub fn pk(&self) -> (r: &Value)
        ensures
            *r == self.spec_pk(),
    {
        &self.pk
    }

    pub fn cid(&self) -> (r: Option<&str>)
        ensures
            r is None <==> self.spec_cid() is None,
            r matches Some(c) ==> self.spec_cid() matches Some(s) && c@ == s@,
    {
        match &self.cid {
            Some(c) => Some(c.as_str()),
            None => None,
        }
    }

    pub fn val(&self) -> (r: &Value)
        ensures
            *r == self.spec_val(),
    {
        &self.val
    }

    pub fn col_version(&self) -> (r: i64)
        ensures
            r == self.spec_col_version(),
    {
        self.col_version
    }

    pub fn db_version(&self) -> (r: i64)
        ensures
            r == self.spec_db_version(),
    {
        self.db_version
    }

    pub fn site_id(&self) -> (r: &Vec<u8>)
        ensures
            r@ == self.spec_site_id(),
    {
        &self.site_id
    }
}

} // verus!
