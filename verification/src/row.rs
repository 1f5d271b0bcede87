use vstd::prelude::*;

verus! {

/// One relational column value, as the entity row codecs read it: the
/// driver's typed values reduced to the plain shapes this library maps.
/// A timestamp column carries its UTC instant as RFC 3339 text.
#[derive(Debug, Clone, PartialEq, Eq)]
pub enum SqlValue {
    Text(String),
    Int4(i32),
    Boolean(bool),
    Timestamp(String),
    Null,
}

/// The mathematical value of a column value.
pub enum SqlValueV {
    Text(Seq<char>),
    Int4(i32),
    Boolean(bool),
    Timestamp(Seq<char>),
    Null,
}

impl View for SqlValue {
    type V = SqlValueV;

    open spec fn view(&self) -> SqlValueV {
        match self {
            SqlValue::Text(s) => SqlValueV::Text(s@),
            SqlValue::Int4(n) => SqlValueV::Int4(*n),
            SqlValue::Boolean(b) => SqlValueV::Boolean(*b),
            SqlValue::Timestamp(s) => SqlValueV::Timestamp(s@),
            SqlValue::Null => SqlValueV::Null,
        }
    }
}

impl DeepView for SqlValue {
    type V = SqlValueV;

    open spec fn deep_view(&self) -> SqlValueV {
        self.view()
    }
}

/// One named column of a relational row.
#[derive(Debug, Clone, PartialEq, Eq)]
pub struct SqlColumn {
    pub name: String,
    pub value: SqlValue,
}

/// The mathematical value of a column.
pub struct SqlColumnV {
    pub name: Seq<char>,
    pub value: SqlValueV,
}

impl View for SqlColumn {
    type V = SqlColumnV;

    open spec fn view(&self) -> SqlColumnV {
        SqlColumnV { name: self.name@, value: self.value@ }
    }
}

impl DeepView for SqlColumn {
    type V = SqlColumnV;

    open spec fn deep_view(&self) -> SqlColumnV {
        self.view()
    }
}

/// A relational row: named columns, mapped to struct fields by exact name.
#[derive(Debug, Clone, PartialEq, Eq)]
pub struct SqlRow {
    pub columns: Vec<SqlColumn>,
}

impl View for SqlRow {
    type V = Seq<SqlColumnV>;

    open spec fn view(&self) -> Seq<SqlColumnV> {
        self.columns.deep_view()
    }
}

/// The first value bound to `name` in the row, if any.
pub open spec fn row_lookup(cols: Seq<SqlColumnV>, name: Seq<char>) -> Option<SqlValueV>
    decreases cols.len(),
{
    if cols.len() == 0 {
        None
    } else if cols[0].name == name {
        Some(cols[0].value)
    } else {
        row_lookup(cols.skip(1), name)
    }
}

/// Reads an optional text column: null is `None`; any other non-text
/// shape is a decode failure.
pub open spec fn spec_opt_text_col(v: Option<SqlValueV>) -> Result<
    Option<Seq<char>>,
    crate::send_modes::error::LibError,
> {
    match v {
        Some(SqlValueV::Text(s)) => Ok(Some(s)),
        Some(SqlValueV::Null) => Ok(None),
        _ => Err(crate::send_modes::error::LibError::InternalServerError),
    }
}

/// Reads an optional integer column: null is `None`; any other non-int
/// shape is a decode failure.
pub open spec fn spec_opt_int_col(v: Option<SqlValueV>) -> Result<
    Option<i32>,
    crate::send_modes::error::LibError,
> {
    match v {
        Some(SqlValueV::Int4(n)) => Ok(Some(n)),
        Some(SqlValueV::Null) => Ok(None),
        _ => Err(crate::send_modes::error::LibError::InternalServerError),
    }
}

impl SqlRow {
    /// Finds the first column named `name`.
    pub fn get<'a>(&'a self, name: &str) -> (r: Option<&'a SqlValue>)
        ensures
            match r {
                Some(v) => row_lookup(self@, name@) == Some(v@),
                None => row_lookup(self@, name@) is None,
            },
    {
        let n: usize = self.columns.len();
        let mut i: usize = 0;
        proof {
            assert(self@.skip(0) =~= self@);
        }
        while i < n
            invariant
                n == self.columns.len(),
                i <= n,
                row_lookup(self@, name@) == row_lookup(self@.skip(i as int), name@),
            decreases n - i,
        {
            if crate::strutil::str_eq(self.columns[i].name.as_str(), name) {
                proof {
                    assert(self@.skip(i as int)[0] == self@[i as int]);
                }
                return Some(&self.columns[i].value);
            }
            proof {
                assert(self@.skip(i as int)[0] == self@[i as int]);
                assert(self@.skip(i as int).skip(1) =~= self@.skip(i + 1));
            }
            i += 1;
        }
        proof {
            assert(self@.skip(n as int).len() == 0);
        }
        None
    }
}

} // verus!
