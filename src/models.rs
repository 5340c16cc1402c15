use vstd::prelude::*;

verus! {

/// What the ingestion pipeline needs to know of a record: its identifier, which
/// orders pages and keys the stored table, and its chain tag.
pub trait Record: Sized {
    /// The record's identifier, as text.
    spec fn key(&self) -> Seq<char>;

    /// The record's chain tag.
    spec fn chain(&self) -> Option<String>;

    /// The same record with its chain tag replaced by `chain` and every other
    /// field left as it is.
    spec fn with_chain(self, chain: Option<String>) -> Self;

    /// Replacing the tag sets exactly the tag: the identifier is kept, and a
    /// second replacement overrides the first.
    proof fn lemma_with_chain(self, a: Option<String>, b: Option<String>)
        ensures
            self.with_chain(a).chain() == a,
            self.with_chain(a).key() == self.key(),
            self.with_chain(a).with_chain(b) == self.with_chain(b),
            self.with_chain(self.chain()) == self,
    ;

    fn id(&self) -> (r: &String)
        ensures
            r@ == self.key(),
    ;

    /// A copy of this record carrying `chain` as its chain tag.
    fn tagged(&self, chain: &String) -> (r: Self)
        ensures
            r == self.with_chain(Some(*chain)),
    ;
}

fn clone_text(s: &Option<String>) -> (r: Option<String>)
    ensures
        r == *s,
{
    match s {
        Some(t) => Some(t.clone()),
        None => None,
    }
}

/// A grant program, as the indexer reports it.
#[derive(Clone, Debug, PartialEq, Eq)]
pub struct Program {
    pub id: String,
    pub created_at: String,
    pub updated_at: String,
    pub chain_id: Option<String>,
}

/// The `programs` collection of one provider response.
#[derive(Clone, Debug)]
pub struct ProgramsQuery {
    pub programs: Vec<Program>,
}

/// A project of a round (a "round project" on the provider side).
#[derive(Clone, Debug, PartialEq, Eq)]
pub struct Project {
    pub id: String,
    pub created_at: String,
    pub updated_at: String,
    pub chain_id: Option<String>,
}

/// The `roundProjects` collection of one provider response.
#[derive(Clone, Debug)]
pub struct ProjectsQuery {
    pub round_projects: Vec<Project>,
}

/// A funding round.
#[derive(Clone, Debug, PartialEq, Eq)]
pub struct Round {
    pub id: String,
    pub created_at: String,
    pub updated_at: String,
    pub chain_id: Option<String>,
}

/// The `rounds` collection of one provider response.
#[derive(Clone, Debug)]
pub struct RoundsQuery {
    pub rounds: Vec<Round>,
}

/// A quadratic-funding vote; `amount` is a decimal kept as text.
#[derive(Clone, Debug, PartialEq, Eq)]
pub struct Vote {
    pub id: String,
    pub created_at: String,
    pub amount: String,
    pub from: String,
    pub to: String,
    pub token: String,
    pub version: String,
    pub project_id: Option<String>,
    pub chain_id: Option<String>,
}

/// The `qfvotes` collection of one provider response.
#[derive(Clone, Debug)]
pub struct VotesQuery {
    pub qfvotes: Vec<Vote>,
}

impl Record for Program {
    open spec fn key(&self) -> Seq<char> {
        self.id@
    }

    open spec fn chain(&self) -> Option<String> {
        self.chain_id
    }

    open spec fn with_chain(self, chain: Option<String>) -> Self {
        Program { chain_id: chain, ..self }
    }

    proof fn lemma_with_chain(self, a: Option<String>, b: Option<String>) {
    }

    fn id(&self) -> (r: &String) {
        &self.id
    }

    fn tagged(&self, chain: &String) -> (r: Self) {
        Program {
            id: self.id.clone(),
            created_at: self.created_at.clone(),
            updated_at: self.updated_at.clone(),
            chain_id: Some(chain.clone()),
        }
    }
}

impl Record for Project {
    open spec fn key(&self) -> Seq<char> {
        self.id@
    }

    open spec fn chain(&self) -> Option<String> {
        self.chain_id
    }

    open spec fn with_chain(self, chain: Option<String>) -> Self {
        Project { chain_id: chain, ..self }
    }

    proof fn lemma_with_chain(self, a: Option<String>, b: Option<String>) {
    }

    fn id(&self) -> (r: &String) {
        &self.id
    }

    fn tagged(&self, chain: &String) -> (r: Self) {
        Project {
            id: self.id.clone(),
            created_at: self.created_at.clone(),
            updated_at: self.updated_at.clone(),
            chain_id: Some(chain.clone()),
        }
    }
}

impl Record for Round {
    open spec fn key(&self) -> Seq<char> {
        self.id@
    }

    open spec fn chain(&self) -> Option<String> {
        self.chain_id
    }

    open spec fn with_chain(self, chain: Option<String>) -> Self {
        Round { chain_id: chain, ..self }
    }

    proof fn lemma_with_chain(self, a: Option<String>, b: Option<String>) {
    }

    fn id(&self) -> (r: &String) {
        &self.id
    }

    fn tagged(&self, chain: &String) -> (r: Self) {
        Round {
            id: self.id.clone(),
            created_at: self.created_at.clone(),
            updated_at: self.updated_at.clone(),
            chain_id: Some(chain.clone()),
        }
    }
}

impl Record for Vote {
    open spec fn key(&self) -> Seq<char> {
        self.id@
    }

    open spec fn chain(&self) -> Option<String> {
        self.chain_id
    }

    open spec fn with_chain(self, chain: Option<String>) -> Self {
        Vote { chain_id: chain, ..self }
    }

    proof fn lemma_with_chain(self, a: Option<String>, b: Option<String>) {
    }

    fn id(&self) -> (r: &String) {
        &self.id
    }

    fn tagged(&self, chain: &String) -> (r: Self) {
        Vote {
            id: self.id.clone(),
            created_at: self.created_at.clone(),
            amount: self.amount.clone(),
            from: self.from.clone(),
            to: self.to.clone(),
            token: self.token.clone(),
            version: self.version.clone(),
            project_id: clone_text(&self.project_id),
            chain_id: Some(chain.clone()),
        }
    }
}

} // verus!
