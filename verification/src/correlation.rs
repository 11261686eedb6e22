//! Cross-stream correlations: saved configurations that join or filter
//! across several named data streams.

use vstd::prelude::*;
use crate::index::Dup;

verus! {

/// Spec-level image of a [`TableConfig`].
pub struct TableConfigModel {
    pub table_name: Seq<char>,
    pub join_fields: Seq<Seq<char>>,
}

/// Spec-level image of a [`Correlation`].
pub struct CorrelationModel {
    pub id: Seq<char>,
    pub user_id: Seq<char>,
    pub table_configs: Seq<TableConfigModel>,
}

/// One stream referenced by a correlation: the stream's name and the
/// fields joined or filtered on.
#[derive(Debug)]
pub struct TableConfig {
    pub table_name: String,
    pub join_fields: Vec<String>,
}

/// A saved configuration joining or filtering across multiple named data
/// streams.
///
/// `id` is caller-supplied at creation and immutable thereafter. `user_id`
/// is derived server-side from the acting caller's identity hash at creation
/// and on every update, never taken from the payload. `table_configs` must
/// reference at least one stream, and every referenced stream must pass the
/// permission gate for the acting session on read and write.
#[derive(Debug)]
pub struct Correlation {
    pub id: String,
    pub user_id: String,
    pub table_configs: Vec<TableConfig>,
}

impl View for TableConfig {
    type V = TableConfigModel;

    open spec fn view(&self) -> TableConfigModel {
        TableConfigModel {
            table_name: self.table_name@,
            join_fields: Seq::new(self.join_fields@.len(), |i: int| self.join_fields@[i]@),
        }
    }
}

impl View for Correlation {
    type V = CorrelationModel;

    open spec fn view(&self) -> CorrelationModel {
        CorrelationModel {
            id: self.id@,
            user_id: self.user_id@,
            table_configs: Seq::new(
                self.table_configs@.len(),
                |i: int| self.table_configs@[i]@,
            ),
        }
    }
}

/// Structural validity: a correlation must reference at least one stream.
pub open spec fn correlation_valid(c: CorrelationModel) -> bool {
    c.table_configs.len() >= 1
}

impl Dup for TableConfig {
    fn dup(&self) -> (r: Self)
        ensures
            r@ == self@,
    {
        let n = self.join_fields.len();
        let mut fields: Vec<String> = Vec::new();
        let mut i: usize = 0;
        while i < n
            invariant
                n == self.join_fields@.len(),
                i <= n,
                fields@.len() == i,
                forall|j: int| 0 <= j < i ==> fields@[j]@ == self.join_fields@[j]@,
            decreases n - i,
        {
            fields.push(self.join_fields[i].clone());
            i += 1;
        }
        let r = TableConfig { table_name: self.table_name.clone(), join_fields: fields };
        proof {
            assert(r@.join_fields =~= self@.join_fields);
        }
        r
    }
}

impl Dup for Correlation {
    fn dup(&self) -> (r: Self)
        ensures
            r@ == self@,
    {
        let n = self.table_configs.len();
        let mut configs: Vec<TableConfig> = Vec::new();
        let mut i: usize = 0;
        while i < n
            invariant
                n == self.table_configs@.len(),
                i <= n,
                configs@.len() == i,
                forall|j: int| 0 <= j < i ==> configs@[j]@ == self.table_configs@[j]@,
            decreases n - i,
        {
            configs.push(self.table_configs[i].dup());
            i += 1;
        }
        let r = Correlation {
            id: self.id.clone(),
            user_id: self.user_id.clone(),
            table_configs: configs,
        };
        proof {
            assert(r@.table_configs =~= self@.table_configs);
        }
        r
    }
}

impl Correlation {
    /// Whether this correlation passes structural validation.
    pub fn is_valid(&self) -> (r: bool)
        ensures
            r == correlation_valid(self@),
    {
        self.table_configs.len() >= 1
    }
}

} // verus!
