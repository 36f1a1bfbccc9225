//! The connection handle as the verified core sees it: the project and
//! dataset every emitted table identifier names. The live transport that
//! carries requests stays outside the verified core, beside this handle.
use vstd::prelude::*;

verus! {

/// Mathematical form of a client handle.
pub ghost struct SpecClient {
    pub project_id: Seq<char>,
    pub dataset_id: Seq<char>,
}

/// The warehouse coordinates a query is addressed to.
#[derive(Debug)]
pub struct BigqueryClient {
    pub project_id: String,
    pub dataset_id: String,
}

impl View for BigqueryClient {
    type V = SpecClient;

    open spec fn view(&self) -> SpecClient {
        SpecClient { project_id: self.project_id@, dataset_id: self.dataset_id@ }
    }
}

impl Clone for BigqueryClient {
    fn clone(&self) -> (r: Self)
        ensures
            r@ == self@,
    {
        let r = BigqueryClient {
            project_id: self.project_id.clone(),
            dataset_id: self.dataset_id.clone(),
        };
        proof {
            assert(r@ =~= self@);
        }
        r
    }
}

impl BigqueryClient {
    /// A handle with empty coordinates.
    pub fn empty() -> (r: BigqueryClient)
        ensures
            r@.project_id.len() == 0,
            r@.dataset_id.len() == 0,
    {
        BigqueryClient { project_id: String::new(), dataset_id: String::new() }
    }

    /// A handle addressed to the given project and dataset.
    pub fn new(project_id: &str, dataset_id: &str) -> (r: BigqueryClient)
        ensures
            r@.project_id == project_id@,
            r@.dataset_id == dataset_id@,
    {
        BigqueryClient {
            project_id: String::from_str(project_id),
            dataset_id: String::from_str(dataset_id),
        }
    }

    pub fn get_project_id(&self) -> (r: &str)
        ensures
            r@ == self@.project_id,
    {
        self.project_id.as_str()
    }

    pub fn get_dataset_id(&self) -> (r: &str)
        ensures
            r@ == self@.dataset_id,
    {
        self.dataset_id.as_str()
    }
}

/// The emitted table identifier: `` `project.dataset.table` ``.
pub open spec fn spec_table_identifier(c: SpecClient, table: Seq<char>) -> Seq<char> {
    seq!['`'] + c.project_id + seq!['.'] + c.dataset_id + seq!['.'] + table + seq!['`']
}

/// Renders the table identifier of `table` under the client's coordinates.
pub fn table_identifier_from_client(client: &BigqueryClient, table: &str) -> (r: String)
    ensures
        r@ == spec_table_identifier(client@, table@),
{
    let mut s = String::from_str("`");
    s.append(client.project_id.as_str());
    s.append(".");
    s.append(client.dataset_id.as_str());
    s.append(".");
    s.append(table);
    s.append("`");
    proof {
        reveal_strlit("`");
        reveal_strlit(".");
        assert("`"@ =~= seq!['`']);
        assert("."@ =~= seq!['.']);
        assert(s@ =~= spec_table_identifier(client@, table@));
    }
    s
}

} // verus!
