//! Customer accounts kept in memory, for tests and for running without a store.

use vstd::prelude::*;
use vstd::string::StringExecFns;

use crate::base::domain_error::{DomainError, DomainErrorView};
use crate::entities::cpf::Cpf;
use crate::entities::cliente::{
    first_with_cpf, first_with_id, lemma_first_with_cpf, lemma_first_with_cpf_push,
    lemma_first_with_id, lemma_first_with_id_push, Cliente, ClienteView,
};

verus! {

/// Reason carried by the error for an account that cannot be given an
/// identifier because every one has been handed out.
pub const EXHAUSTED: &'static str = "Cliente";

/// Customer accounts in the order in which they were created.
pub struct InMemoryClienteRepository {
    clientes: Vec<Cliente>,
    next_id: usize,
}

/// An [`InMemoryClienteRepository`] as contracts see it.
pub struct ClienteStore {
    /// The accounts, oldest first.
    pub accounts: Seq<ClienteView>,
    /// The identifier that the next account will get.
    pub next_id: usize,
}

/// The accounts that do not have this CPF.
pub open spec fn other_cpf(cpf: Seq<char>) -> spec_fn(ClienteView) -> bool {
    |account: ClienteView| account.cpf != cpf
}

impl ClienteStore {
    /// What holds of every store: identifiers start at one, grow along the
    /// listing and lie below the next one to hand out, and no CPF occurs twice.
    pub open spec fn wf(self) -> bool {
        &&& 1 <= self.next_id
        &&& forall|i: int|
            0 <= i < self.accounts.len() ==> 1 <= (#[trigger] self.accounts[i]).id < self.next_id
        &&& forall|i: int, j: int|
            0 <= i < j < self.accounts.len() ==> (#[trigger] self.accounts[i]).id < (
            #[trigger] self.accounts[j]).id
        &&& forall|i: int, j: int|
            0 <= i < j < self.accounts.len() ==> (#[trigger] self.accounts[i]).cpf != (
            #[trigger] self.accounts[j]).cpf
    }

    /// Whether an account with this CPF is in the store.
    pub open spec fn has_cpf(self, cpf: Seq<char>) -> bool {
        first_with_cpf(self.accounts, cpf) is Some
    }

    /// Whether an account with this identifier is in the store.
    pub open spec fn has_id(self, id: usize) -> bool {
        first_with_id(self.accounts, id) is Some
    }

    /// The account as the store keeps it when it is handed in for creation:
    /// under the next identifier, and otherwise as it came.
    pub open spec fn stamped(self, cliente: ClienteView) -> ClienteView {
        ClienteView { id: self.next_id, ..cliente }
    }

    /// The store once `cliente` has been created in it.
    pub open spec fn after_create(self, cliente: ClienteView) -> ClienteStore {
        ClienteStore {
            accounts: self.accounts.push(self.stamped(cliente)),
            next_id: (self.next_id + 1) as usize,
        }
    }

    /// The store once the account with this CPF has been deleted from it.
    /// Identifiers that were handed out stay handed out.
    pub open spec fn after_delete(self, cpf: Seq<char>) -> ClienteStore {
        ClienteStore {
            accounts: self.accounts.filter(other_cpf(cpf)),
            next_id: self.next_id,
        }
    }
}

impl View for InMemoryClienteRepository {
    type V = ClienteStore;

    closed spec fn view(&self) -> ClienteStore {
        ClienteStore { accounts: self.clientes.deep_view(), next_id: self.next_id }
    }
}

/// Taking out the one account that has a CPF leaves the accounts that do not
/// have it.
proof fn lemma_remove_is_filter(accounts: Seq<ClienteView>, cpf: Seq<char>, i: int)
    requires
        0 <= i < accounts.len(),
        accounts[i].cpf == cpf,
        forall|j: int| 0 <= j < accounts.len() && j != i ==> (#[trigger] accounts[j]).cpf != cpf,
    ensures
        accounts.filter(other_cpf(cpf)) == accounts.remove(i),
    decreases accounts.len(),
{
    reveal(Seq::filter);
    let rest = accounts.drop_last();
    if i == accounts.len() - 1 {
        lemma_filter_keeps_all(rest, cpf);
        assert(accounts.remove(i) =~= rest);
    } else {
        lemma_remove_is_filter(rest, cpf, i);
        assert(accounts.remove(i) =~= rest.remove(i).push(accounts.last()));
    }
}

/// Where no account has a CPF, leaving out those that have it leaves all.
proof fn lemma_filter_keeps_all(accounts: Seq<ClienteView>, cpf: Seq<char>)
    requires
        forall|j: int| 0 <= j < accounts.len() ==> (#[trigger] accounts[j]).cpf != cpf,
    ensures
        accounts.filter(other_cpf(cpf)) == accounts,
    decreases accounts.len(),
{
    reveal(Seq::filter);
    if accounts.len() > 0 {
        lemma_filter_keeps_all(accounts.drop_last(), cpf);
        assert(accounts.drop_last().push(accounts.last()) =~= accounts);
    }
}

/// Where in a listing the first account with the CPF stands.
fn index_of_cpf(clientes: &Vec<Cliente>, cpf: &Cpf) -> (index: Option<usize>)
    ensures
        match index {
            Some(i) => i < clientes.len() && first_with_cpf(clientes.deep_view(), cpf@) == Some(
                clientes[i as int]@,
            ) && clientes[i as int]@.cpf == cpf@,
            None => first_with_cpf(clientes.deep_view(), cpf@) is None,
        },
{
    let ghost all = clientes.deep_view();
    let mut i: usize = 0;
    assert(all.skip(0) =~= all);
    while i < clientes.len()
        invariant
            i <= clientes.len(),
            all == clientes.deep_view(),
            first_with_cpf(all, cpf@) == first_with_cpf(all.skip(i as int), cpf@),
        decreases clientes.len() - i,
    {
        proof {
            assert(all.skip(i as int).first() == clientes[i as int]@);
            assert(all.skip(i as int).drop_first() =~= all.skip(i + 1));
        }
        if *cpf.value() == *clientes[i].cpf().value() {
            return Some(i);
        }
        i += 1;
    }
    None
}

/// Where in a listing the first account with the identifier stands.
fn index_of_id(clientes: &Vec<Cliente>, id: usize) -> (index: Option<usize>)
    ensures
        match index {
            Some(i) => i < clientes.len() && first_with_id(clientes.deep_view(), id) == Some(
                clientes[i as int]@,
            ) && clientes[i as int]@.id == id,
            None => first_with_id(clientes.deep_view(), id) is None,
        },
{
    let ghost all = clientes.deep_view();
    let mut i: usize = 0;
    assert(all.skip(0) =~= all);
    while i < clientes.len()
        invariant
            i <= clientes.len(),
            all == clientes.deep_view(),
            first_with_id(all, id) == first_with_id(all.skip(i as int), id),
        decreases clientes.len() - i,
    {
        proof {
            assert(all.skip(i as int).first() == clientes[i as int]@);
            assert(all.skip(i as int).drop_first() =~= all.skip(i + 1));
        }
        if id == *clientes[i].id() {
            return Some(i);
        }
        i += 1;
    }
    None
}

impl InMemoryClienteRepository {
    #[verifier::type_invariant]
    spec fn well_formed(self) -> bool {
        self@.wf()
    }

    /// A store without accounts. The first account will get identifier 1.
    pub fn new() -> (repository: Self)
        ensures
            repository@ == (ClienteStore { accounts: Seq::empty(), next_id: 1 }),
            repository@.wf(),
    {
        let repository = InMemoryClienteRepository { clientes: Vec::new(), next_id: 1 };
        assert(repository.clientes.deep_view() =~= Seq::<ClienteView>::empty());
        repository
    }

    /// Every account, oldest first.
    pub fn get_clientes(&self) -> (r: Result<Vec<Cliente>, DomainError>)
        ensures
            self@.wf(),
            r matches Ok(clientes) && clientes.deep_view() == self@.accounts,
    {
        proof {
            use_type_invariant(self);
        }
        let mut clientes: Vec<Cliente> = Vec::new();
        let mut i: usize = 0;
        while i < self.clientes.len()
            invariant
                i <= self.clientes.len(),
                clientes.len() == i,
                forall|j: int| 0 <= j < i ==> (#[trigger] clientes[j])@ == self.clientes[j]@,
            decreases self.clientes.len() - i,
        {
            clientes.push(self.clientes[i].clone());
            i += 1;
        }
        assert(clientes.deep_view() =~= self.clientes.deep_view());
        Ok(clientes)
    }

    /// The account with the given identifier, or `NotFound`.
    pub fn get_cliente_by_id(&self, id: usize) -> (r: Result<Cliente, DomainError>)
        ensures
            self@.wf(),
            match first_with_id(self@.accounts, id) {
                Some(found) => r matches Ok(cliente) && cliente@ == found,
                None => r matches Err(e) && e@ == DomainErrorView::NotFound,
            },
    {
        proof {
            use_type_invariant(self);
        }
        match index_of_id(&self.clientes, id) {
            Some(i) => Ok(self.clientes[i].clone()),
            None => Err(DomainError::NotFound),
        }
    }

    /// The account with the given CPF, or `NotFound`.
    pub fn get_cliente_by_cpf(&self, cpf: Cpf) -> (r: Result<Cliente, DomainError>)
        ensures
            self@.wf(),
            match first_with_cpf(self@.accounts, cpf@) {
                Some(found) => r matches Ok(cliente) && cliente@ == found,
                None => r matches Err(e) && e@ == DomainErrorView::NotFound,
            },
    {
        proof {
            use_type_invariant(self);
        }
        match index_of_cpf(&self.clientes, &cpf) {
            Some(i) => Ok(self.clientes[i].clone()),
            None => Err(DomainError::NotFound),
        }
    }

    /// Adds an account under the next identifier; the identifier that came
    /// with it is not looked at. An account whose CPF is in the store already
    /// is refused with `AlreadyExists`, and the store stays as it was.
    pub fn create_cliente(&mut self, cliente: Cliente) -> (r: Result<Cliente, DomainError>)
        ensures
            old(self)@.wf(),
            final(self)@.wf(),
            match r {
                Ok(created) => {
                    &&& !old(self)@.has_cpf(cliente@.cpf)
                    &&& old(self)@.next_id < usize::MAX
                    &&& created@ == old(self)@.stamped(cliente@)
                    &&& final(self)@ == old(self)@.after_create(cliente@)
                },
                Err(e) => {
                    &&& final(self)@ == old(self)@
                    &&& if old(self)@.has_cpf(cliente@.cpf) {
                        e@ == DomainErrorView::AlreadyExists
                    } else {
                        old(self)@.next_id == usize::MAX && e@ == DomainErrorView::Invalid(
                            EXHAUSTED@,
                        )
                    }
                },
            },
    {
        proof {
            use_type_invariant(&*self);
        }
        if index_of_cpf(&self.clientes, cliente.cpf()).is_some() {
            return Err(DomainError::AlreadyExists);
        }
        if self.next_id == usize::MAX {
            return Err(DomainError::Invalid(String::from_str(EXHAUSTED)));
        }
        let mut created = cliente;
        created.set_id(self.next_id);
        let stored = created.clone();
        proof {
            lemma_first_with_cpf(self.clientes.deep_view(), cliente@.cpf);
        }
        let ghost before = self.clientes.deep_view();
        assert(self@.accounts == before && self@.wf());
        let mut clientes: Vec<Cliente> = Vec::new();
        std::mem::swap(&mut clientes, &mut self.clientes);
        clientes.push(stored);
        proof {
            let after = before.push(stored@);
            assert(clientes.deep_view() =~= after);
            assert forall|i: int, j: int| 0 <= i < j < after.len() implies (#[trigger] after[i]).id
                < (#[trigger] after[j]).id && after[i].cpf != after[j].cpf by {
                assert(after[i] == before[i]);
                if j < before.len() {
                    assert(after[j] == before[j]);
                }
            }
            assert forall|i: int| 0 <= i < after.len() implies 1 <= (#[trigger] after[i]).id
                <= self.next_id by {
                if i < before.len() {
                    assert(after[i] == before[i]);
                }
            }
        }
        self.next_id = self.next_id + 1;
        self.clientes = clientes;
        Ok(created)
    }

    /// Takes the account with the given CPF out of the store; `NotFound` where
    /// there is none. The identifier of a deleted account is not used again.
    pub fn delete_cliente(&mut self, cpf: Cpf) -> (r: Result<(), DomainError>)
        ensures
            old(self)@.wf(),
            final(self)@.wf(),
            match r {
                Ok(_) => old(self)@.has_cpf(cpf@) && final(self)@ == old(self)@.after_delete(cpf@),
                Err(e) => !old(self)@.has_cpf(cpf@) && final(self)@ == old(self)@ && e@
                    == DomainErrorView::NotFound,
            },
    {
        proof {
            use_type_invariant(&*self);
        }
        let ghost before = self.clientes.deep_view();
        assert(self@.accounts == before && self@.wf());
        match index_of_cpf(&self.clientes, &cpf) {
            Some(i) => {
                let mut clientes: Vec<Cliente> = Vec::new();
                std::mem::swap(&mut clientes, &mut self.clientes);
                clientes.remove(i);
                proof {
                    assert forall|j: int| 0 <= j < before.len() && j != i implies (
                    #[trigger] before[j]).cpf != cpf@ by {
                        if j < i {
                            assert(before[j].cpf != before[i as int].cpf);
                        } else {
                            assert(before[i as int].cpf != before[j].cpf);
                        }
                    }
                    lemma_remove_is_filter(before, cpf@, i as int);
                    assert(clientes.deep_view() =~= before.remove(i as int));
                }
                self.clientes = clientes;
                Ok(())
            },
            None => Err(DomainError::NotFound),
        }
    }
}

/// An account that was created is in the store: a lookup by its CPF and a
/// lookup by the identifier it was given both find it, as it was handed in but
/// for the identifier. A second account with that CPF would be refused.
pub proof fn lemma_created_is_found(store: ClienteStore, cliente: ClienteView)
    requires
        store.wf(),
        !store.has_cpf(cliente.cpf),
        store.next_id < usize::MAX,
    ensures
        store.after_create(cliente).wf(),
        first_with_cpf(store.after_create(cliente).accounts, cliente.cpf) == Some(
            store.stamped(cliente),
        ),
        first_with_id(store.after_create(cliente).accounts, store.next_id) == Some(
            store.stamped(cliente),
        ),
        store.after_create(cliente).has_cpf(cliente.cpf),
{
    let created = store.stamped(cliente);
    let after = store.after_create(cliente).accounts;
    lemma_first_with_cpf(store.accounts, cliente.cpf);
    lemma_first_with_id(store.accounts, store.next_id);
    lemma_first_with_cpf_push(store.accounts, created, cliente.cpf);
    lemma_first_with_id_push(store.accounts, created, store.next_id);
    assert forall|i: int, j: int| 0 <= i < j < after.len() implies (#[trigger] after[i]).id < (
    #[trigger] after[j]).id && after[i].cpf != after[j].cpf by {
        assert(after[i] == store.accounts[i]);
        if j < store.accounts.len() {
            assert(after[j] == store.accounts[j]);
        }
    }
    assert forall|i: int| 0 <= i < after.len() implies 1 <= (#[trigger] after[i]).id
        <= store.next_id by {
        if i < store.accounts.len() {
            assert(after[i] == store.accounts[i]);
        }
    }
}

/// An account that was deleted is not in the store: a lookup by its CPF finds
/// nothing, and a second deletion would give `NotFound`.
pub proof fn lemma_deleted_is_gone(store: ClienteStore, cpf: Seq<char>)
    ensures
        first_with_cpf(store.after_delete(cpf).accounts, cpf) is None,
        !store.after_delete(cpf).has_cpf(cpf),
{
    let left = store.after_delete(cpf).accounts;
    lemma_first_with_cpf(left, cpf);
    assert forall|i: int| 0 <= i < left.len() implies (#[trigger] left[i]).cpf != cpf by {
        store.accounts.lemma_filter_pred(other_cpf(cpf), i);
    }
}

/// An identifier is given once: whatever is deleted, the next account gets
/// an identifier that no account of the store has or had.
pub proof fn lemma_identifiers_are_not_reused(store: ClienteStore, cpf: Seq<char>)
    requires
        store.wf(),
    ensures
        store.after_delete(cpf).next_id == store.next_id,
        forall|i: int|
            0 <= i < store.accounts.len() ==> (#[trigger] store.accounts[i]).id < store.next_id,
        !store.has_id(store.next_id),
{
    lemma_first_with_id(store.accounts, store.next_id);
}

} // verus!
