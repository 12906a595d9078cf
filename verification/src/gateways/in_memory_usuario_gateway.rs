//! Staff accounts kept in memory, for tests and for running without a store.

use vstd::prelude::*;
use vstd::string::StringExecFns;

use crate::base::domain_error::{DomainError, DomainErrorView};
use crate::entities::cpf::Cpf;
use crate::entities::usuario::{
    first_with_cpf, first_with_id, lemma_first_with_cpf, lemma_first_with_cpf_push,
    lemma_first_with_id, lemma_first_with_id_push, Usuario, UsuarioView,
};

verus! {

/// Reason carried by the error for an account that cannot be given an
/// identifier because every one has been handed out.
pub const EXHAUSTED: &'static str = "Usuario";

/// Staff accounts in the order in which they were created.
pub struct InMemoryUsuarioRepository {
    usuarios: Vec<Usuario>,
    next_id: usize,
}

/// An [`InMemoryUsuarioRepository`] as contracts see it.
pub struct UsuarioStore {
    /// The accounts, oldest first.
    pub accounts: Seq<UsuarioView>,
    /// The identifier that the next account will get.
    pub next_id: usize,
}

/// The accounts that do not have this CPF.
pub open spec fn other_cpf(cpf: Seq<char>) -> spec_fn(UsuarioView) -> bool {
    |account: UsuarioView| account.cpf != cpf
}

impl UsuarioStore {
    /// What holds of every store: identifiers start at one, grow along the
    /// listing and lie below the next one to hand out, and no CPF occurs twice.
    pub open spec fn wf(self) -> bool {
        &&& 1 <= self.next_id
        &&& forall|i: int|
            0 <= i < self.accounts.len() ==> 1 <= (#[trigger] self.accounts[i]).id < self.next_id
        &&& forall|i: int, j: int|
            0 <= i < j < self.accounts.len() ==> (#[trigger] self.accounts[i]).id < (
            #[trigger] self.accounts[j]).id
        &&& forall|i: int, j: int|
            0 <= i < j < self.accounts.len() ==> (#[trigger] self.accounts[i]).cpf != (
            #[trigger] self.accounts[j]).cpf
    }

    /// Whether an account with this CPF is in the store.
    pub open spec fn has_cpf(self, cpf: Seq<char>) -> bool {
        first_with_cpf(self.accounts, cpf) is Some
    }

    /// Whether an account with this identifier is in the store.
    pub open spec fn has_id(self, id: usize) -> bool {
        first_with_id(self.accounts, id) is Some
    }

    /// The account as the store keeps it when it is handed in for creation:
    /// under the next identifier, and otherwise as it came.
    pub open spec fn stamped(self, usuario: UsuarioView) -> UsuarioView {
        UsuarioView { id: self.next_id, ..usuario }
    }

    /// The store once `usuario` has been created in it.
    pub open spec fn after_create(self, usuario: UsuarioView) -> UsuarioStore {
        UsuarioStore {
            accounts: self.accounts.push(self.stamped(usuario)),
            next_id: (self.next_id + 1) as usize,
        }
    }

    /// The store once the account with this CPF has been deleted from it.
    /// Identifiers that were handed out stay handed out.
    pub open spec fn after_delete(self, cpf: Seq<char>) -> UsuarioStore {
        UsuarioStore {
            accounts: self.accounts.filter(other_cpf(cpf)),
            next_id: self.next_id,
        }
    }

    /// Whether another account than the one with the identifier of `usuario`
    /// has the CPF of `usuario`.
    pub open spec fn cpf_taken_by_other(self, usuario: UsuarioView) -> bool {
        exists|i: int|
            0 <= i < self.accounts.len() && (#[trigger] self.accounts[i]).cpf == usuario.cpf
                && self.accounts[i].id != usuario.id
    }

    /// The store once the account with the identifier of `usuario` has been
    /// replaced by `usuario`.
    pub open spec fn after_update(self, usuario: UsuarioView) -> UsuarioStore {
        UsuarioStore {
            accounts: Seq::new(
                self.accounts.len(),
                |i: int|
                    if self.accounts[i].id == usuario.id {
                        usuario
                    } else {
                        self.accounts[i]
                    },
            ),
            next_id: self.next_id,
        }
    }
}

impl View for InMemoryUsuarioRepository {
    type V = UsuarioStore;

    closed spec fn view(&self) -> UsuarioStore {
        UsuarioStore { accounts: self.usuarios.deep_view(), next_id: self.next_id }
    }
}

/// Taking out the one account that has a CPF leaves the accounts that do not
/// have it.
proof fn lemma_remove_is_filter(accounts: Seq<UsuarioView>, cpf: Seq<char>, i: int)
    requires
        0 <= i < accounts.len(),
        accounts[i].cpf == cpf,
        forall|j: int| 0 <= j < accounts.len() && j != i ==> (#[trigger] accounts[j]).cpf != cpf,
    ensures
        accounts.filter(other_cpf(cpf)) == accounts.remove(i),
    decreases accounts.len(),
{
    reveal(Seq::filter);
    let rest = accounts.drop_last();
    if i == accounts.len() - 1 {
        lemma_filter_keeps_all(rest, cpf);
        assert(accounts.remove(i) =~= rest);
    } else {
        lemma_remove_is_filter(rest, cpf, i);
        assert(accounts.remove(i) =~= rest.remove(i).push(accounts.last()));
    }
}

/// Where no account has a CPF, leaving out those that have it leaves all.
proof fn lemma_filter_keeps_all(accounts: Seq<UsuarioView>, cpf: Seq<char>)
    requires
        forall|j: int| 0 <= j < accounts.len() ==> (#[trigger] accounts[j]).cpf != cpf,
    ensures
        accounts.filter(other_cpf(cpf)) == accounts,
    decreases accounts.len(),
{
    reveal(Seq::filter);
    if accounts.len() > 0 {
        lemma_filter_keeps_all(accounts.drop_last(), cpf);
        assert(accounts.drop_last().push(accounts.last()) =~= accounts);
    }
}

/// Where in a listing the first account with the CPF stands.
fn index_of_cpf(usuarios: &Vec<Usuario>, cpf: &Cpf) -> (index: Option<usize>)
    ensures
        match index {
            Some(i) => i < usuarios.len() && first_with_cpf(usuarios.deep_view(), cpf@) == Some(
                usuarios[i as int]@,
            ) && usuarios[i as int]@.cpf == cpf@,
            None => first_with_cpf(usuarios.deep_view(), cpf@) is None,
        },
{
    let ghost all = usuarios.deep_view();
    let mut i: usize = 0;
    assert(all.skip(0) =~= all);
    while i < usuarios.len()
        invariant
            i <= usuarios.len(),
            all == usuarios.deep_view(),
            first_with_cpf(all, cpf@) == first_with_cpf(all.skip(i as int), cpf@),
        decreases usuarios.len() - i,
    {
        proof {
            assert(all.skip(i as int).first() == usuarios[i as int]@);
            assert(all.skip(i as int).drop_first() =~= all.skip(i + 1));
        }
        if *cpf.value() == *usuarios[i].cpf().value() {
            return Some(i);
        }
        i += 1;
    }
    None
}

/// Where in a listing the first account with the identifier stands.
fn index_of_id(usuarios: &Vec<Usuario>, id: usize) -> (index: Option<usize>)
    ensures
        match index {
            Some(i) => i < usuarios.len() && first_with_id(usuarios.deep_view(), id) == Some(
                usuarios[i as int]@,
            ) && usuarios[i as int]@.id == id,
            None => first_with_id(usuarios.deep_view(), id) is None,
        },
{
    let ghost all = usuarios.deep_view();
    let mut i: usize = 0;
    assert(all.skip(0) =~= all);
    while i < usuarios.len()
        invariant
            i <= usuarios.len(),
            all == usuarios.deep_view(),
            first_with_id(all, id) == first_with_id(all.skip(i as int), id),
        decreases usuarios.len() - i,
    {
        proof {
            assert(all.skip(i as int).first() == usuarios[i as int]@);
            assert(all.skip(i as int).drop_first() =~= all.skip(i + 1));
        }
        if id == *usuarios[i].id() {
            return Some(i);
        }
        i += 1;
    }
    None
}

impl InMemoryUsuarioRepository {
    #[verifier::type_invariant]
    spec fn well_formed(self) -> bool {
        self@.wf()
    }

    /// A store without accounts. The first account will get identifier 1.
    pub fn new() -> (repository: Self)
        ensures
            repository@ == (UsuarioStore { accounts: Seq::empty(), next_id: 1 }),
            repository@.wf(),
    {
        let repository = InMemoryUsuarioRepository { usuarios: Vec::new(), next_id: 1 };
        assert(repository.usuarios.deep_view() =~= Seq::<UsuarioView>::empty());
        repository
    }

    /// Every account, oldest first.
    pub fn get_usuarios(&self) -> (r: Result<Vec<Usuario>, DomainError>)
        ensures
            self@.wf(),
            r matches Ok(usuarios) && usuarios.deep_view() == self@.accounts,
    {
        proof {
            use_type_invariant(self);
        }
        let mut usuarios: Vec<Usuario> = Vec::new();
        let mut i: usize = 0;
        while i < self.usuarios.len()
            invariant
                i <= self.usuarios.len(),
                usuarios.len() == i,
                forall|j: int| 0 <= j < i ==> (#[trigger] usuarios[j])@ == self.usuarios[j]@,
            decreases self.usuarios.len() - i,
        {
            usuarios.push(self.usuarios[i].clone());
            i += 1;
        }
        assert(usuarios.deep_view() =~= self.usuarios.deep_view());
        Ok(usuarios)
    }

    /// The account with the given identifier, or `NotFound`.
    pub fn get_usuario_by_id(&self, id: usize) -> (r: Result<Usuario, DomainError>)
        ensures
            self@.wf(),
            match first_with_id(self@.accounts, id) {
                Some(found) => r matches Ok(usuario) && usuario@ == found,
                None => r matches Err(e) && e@ == DomainErrorView::NotFound,
            },
    {
        proof {
            use_type_invariant(self);
        }
        match index_of_id(&self.usuarios, id) {
            Some(i) => Ok(self.usuarios[i].clone()),
            None => Err(DomainError::NotFound),
        }
    }

    /// The account with the given CPF, or `NotFound`.
    pub fn get_usuario_by_cpf(&self, cpf: Cpf) -> (r: Result<Usuario, DomainError>)
        ensures
            self@.wf(),
            match first_with_cpf(self@.accounts, cpf@) {
                Some(found) => r matches Ok(usuario) && usuario@ == found,
                None => r matches Err(e) && e@ == DomainErrorView::NotFound,
            },
    {
        proof {
            use_type_invariant(self);
        }
        match index_of_cpf(&self.usuarios, &cpf) {
            Some(i) => Ok(self.usuarios[i].clone()),
            None => Err(DomainError::NotFound),
        }
    }

    /// Adds an account under the next identifier; the identifier that came
    /// with it is not looked at. An account whose CPF is in the store already
    /// is refused with `AlreadyExists`, and the store stays as it was.
    pub fn create_usuario(&mut self, usuario: Usuario) -> (r: Result<Usuario, DomainError>)
        ensures
            old(self)@.wf(),
            final(self)@.wf(),
            match r {
                Ok(created) => {
                    &&& !old(self)@.has_cpf(usuario@.cpf)
                    &&& old(self)@.next_id < usize::MAX
                    &&& created@ == old(self)@.stamped(usuario@)
                    &&& final(self)@ == old(self)@.after_create(usuario@)
                },
                Err(e) => {
                    &&& final(self)@ == old(self)@
                    &&& if old(self)@.has_cpf(usuario@.cpf) {
                        e@ == DomainErrorView::AlreadyExists
                    } else {
                        old(self)@.next_id == usize::MAX && e@ == DomainErrorView::Invalid(
                            EXHAUSTED@,
                        )
                    }
                },
            },
    {
        proof {
            use_type_invariant(&*self);
        }
        if index_of_cpf(&self.usuarios, usuario.cpf()).is_some() {
            return Err(DomainError::AlreadyExists);
        }
        if self.next_id == usize::MAX {
            return Err(DomainError::Invalid(String::from_str(EXHAUSTED)));
        }
        let mut created = usuario;
        created.set_id(self.next_id);
        let stored = created.clone();
        proof {
            lemma_first_with_cpf(self.usuarios.deep_view(), usuario@.cpf);
        }
        let ghost before = self.usuarios.deep_view();
        assert(self@.accounts == before && self@.wf());
        let mut usuarios: Vec<Usuario> = Vec::new();
        std::mem::swap(&mut usuarios, &mut self.usuarios);
        usuarios.push(stored);
        proof {
            let after = before.push(stored@);
            assert(usuarios.deep_view() =~= after);
            assert forall|i: int, j: int| 0 <= i < j < after.len() implies (#[trigger] after[i]).id
                < (#[trigger] after[j]).id && after[i].cpf != after[j].cpf by {
                assert(after[i] == before[i]);
                if j < before.len() {
                    assert(after[j] == before[j]);
                }
            }
            assert forall|i: int| 0 <= i < after.len() implies 1 <= (#[trigger] after[i]).id
                <= self.next_id by {
                if i < before.len() {
                    assert(after[i] == before[i]);
                }
            }
        }
        self.next_id = self.next_id + 1;
        self.usuarios = usuarios;
        Ok(created)
    }

    /// Replaces the account that has the identifier of `usuario` by `usuario`.
    /// `NotFound` where no account has that identifier; `AlreadyExists` where
    /// the CPF of `usuario` belongs to another account. On an error the store
    /// stays as it was.
    pub fn update_usuario(&mut self, usuario: Usuario) -> (r: Result<Usuario, DomainError>)
        ensures
            old(self)@.wf(),
            final(self)@.wf(),
            match r {
                Ok(updated) => {
                    &&& old(self)@.has_id(usuario@.id)
                    &&& !old(self)@.cpf_taken_by_other(usuario@)
                    &&& updated@ == usuario@
                    &&& final(self)@ == old(self)@.after_update(usuario@)
                },
                Err(e) => {
                    &&& final(self)@ == old(self)@
                    &&& if !old(self)@.has_id(usuario@.id) {
                        e@ == DomainErrorView::NotFound
                    } else {
                        old(self)@.cpf_taken_by_other(usuario@) && e@
                            == DomainErrorView::AlreadyExists
                    }
                },
            },
    {
        proof {
            use_type_invariant(&*self);
            lemma_first_with_cpf(self.usuarios.deep_view(), usuario@.cpf);
            lemma_first_with_id(self.usuarios.deep_view(), usuario@.id);
        }
        let ghost before = self.usuarios.deep_view();
        assert(self@.accounts == before && self@.wf());
        let i: usize = match index_of_id(&self.usuarios, *usuario.id()) {
            Some(i) => i,
            None => {
                return Err(DomainError::NotFound);
            },
        };
        match index_of_cpf(&self.usuarios, usuario.cpf()) {
            Some(j) => {
                if j != i {
                    assert(before[j as int].cpf == usuario@.cpf && before[j as int].id
                        != usuario@.id);
                    return Err(DomainError::AlreadyExists);
                }
            },
            None => {},
        }
        assert(!old(self)@.cpf_taken_by_other(usuario@)) by {
            if old(self)@.cpf_taken_by_other(usuario@) {
                let k = choose|k: int|
                    0 <= k < before.len() && (#[trigger] before[k]).cpf == usuario@.cpf
                        && before[k].id != usuario@.id;
                assert(before[i as int].id == usuario@.id);
            }
        }
        let stored = usuario.clone();
        let mut usuarios: Vec<Usuario> = Vec::new();
        std::mem::swap(&mut usuarios, &mut self.usuarios);
        usuarios.set(i, stored);
        assert(usuarios.deep_view() =~= old(self)@.after_update(usuario@).accounts);
        self.usuarios = usuarios;
        Ok(usuario)
    }

    /// Takes the account with the given CPF out of the store; `NotFound` where
    /// there is none. The identifier of a deleted account is not used again.
    pub fn delete_usuario(&mut self, cpf: Cpf) -> (r: Result<(), DomainError>)
        ensures
            old(self)@.wf(),
            final(self)@.wf(),
            match r {
                Ok(_) => old(self)@.has_cpf(cpf@) && final(self)@ == old(self)@.after_delete(cpf@),
                Err(e) => !old(self)@.has_cpf(cpf@) && final(self)@ == old(self)@ && e@
                    == DomainErrorView::NotFound,
            },
    {
        proof {
            use_type_invariant(&*self);
        }
        let ghost before = self.usuarios.deep_view();
        assert(self@.accounts == before && self@.wf());
        match index_of_cpf(&self.usuarios, &cpf) {
            Some(i) => {
                let mut usuarios: Vec<Usuario> = Vec::new();
                std::mem::swap(&mut usuarios, &mut self.usuarios);
                usuarios.remove(i);
                proof {
                    assert forall|j: int| 0 <= j < before.len() && j != i implies (
                    #[trigger] before[j]).cpf != cpf@ by {
                        if j < i {
                            assert(before[j].cpf != before[i as int].cpf);
                        } else {
                            assert(before[i as int].cpf != before[j].cpf);
                        }
                    }
                    lemma_remove_is_filter(before, cpf@, i as int);
                    assert(usuarios.deep_view() =~= before.remove(i as int));
                }
                self.usuarios = usuarios;
                Ok(())
            },
            None => Err(DomainError::NotFound),
        }
    }
}

/// An account that was created is in the store: a lookup by its CPF and a
/// lookup by the identifier it was given both find it, as it was handed in but
/// for the identifier. A second account with that CPF would be refused.
pub proof fn lemma_created_is_found(store: UsuarioStore, usuario: UsuarioView)
    requires
        store.wf(),
        !store.has_cpf(usuario.cpf),
        store.next_id < usize::MAX,
    ensures
        store.after_create(usuario).wf(),
        first_with_cpf(store.after_create(usuario).accounts, usuario.cpf) == Some(
            store.stamped(usuario),
        ),
        first_with_id(store.after_create(usuario).accounts, store.next_id) == Some(
            store.stamped(usuario),
        ),
        store.after_create(usuario).has_cpf(usuario.cpf),
{
    let created = store.stamped(usuario);
    let after = store.after_create(usuario).accounts;
    lemma_first_with_cpf(store.accounts, usuario.cpf);
    lemma_first_with_id(store.accounts, store.next_id);
    lemma_first_with_cpf_push(store.accounts, created, usuario.cpf);
    lemma_first_with_id_push(store.accounts, created, store.next_id);
    assert forall|i: int, j: int| 0 <= i < j < after.len() implies (#[trigger] after[i]).id < (
    #[trigger] after[j]).id && after[i].cpf != after[j].cpf by {
        assert(after[i] == store.accounts[i]);
        if j < store.accounts.len() {
            assert(after[j] == store.accounts[j]);
        }
    }
    assert forall|i: int| 0 <= i < after.len() implies 1 <= (#[trigger] after[i]).id
        <= store.next_id by {
        if i < store.accounts.len() {
            assert(after[i] == store.accounts[i]);
        }
    }
}

/// An account that was deleted is not in the store: a lookup by its CPF finds
/// nothing, and a second deletion would give `NotFound`.
pub proof fn lemma_deleted_is_gone(store: UsuarioStore, cpf: Seq<char>)
    ensures
        first_with_cpf(store.after_delete(cpf).accounts, cpf) is None,
        !store.after_delete(cpf).has_cpf(cpf),
{
    let left = store.after_delete(cpf).accounts;
    lemma_first_with_cpf(left, cpf);
    assert forall|i: int| 0 <= i < left.len() implies (#[trigger] left[i]).cpf != cpf by {
        store.accounts.lemma_filter_pred(other_cpf(cpf), i);
    }
}

/// An identifier is given once: whatever is deleted, the next account gets
/// an identifier that no account of the store has or had.
pub proof fn lemma_identifiers_are_not_reused(store: UsuarioStore, cpf: Seq<char>)
    requires
        store.wf(),
    ensures
        store.after_delete(cpf).next_id == store.next_id,
        forall|i: int|
            0 <= i < store.accounts.len() ==> (#[trigger] store.accounts[i]).id < store.next_id,
        !store.has_id(store.next_id),
{
    lemma_first_with_id(store.accounts, store.next_id);
}

} // verus!
