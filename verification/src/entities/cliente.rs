//! Customer accounts.

use vstd::prelude::*;

use crate::base::assertion_concern::{
    assert_argument_not_empty, assert_argument_timestamp_format, chrono_parses,
    INVALID_TIMESTAMP, TIMESTAMP_FORMAT,
};
use crate::base::domain_error::{DomainError, DomainErrorView};
use crate::entities::cpf::Cpf;

verus! {

/// A customer account. The CPF is the key by which the outside world knows the
/// customer; the identifier is a key of the store's own.
#[derive(Debug)]
pub struct Cliente {
    id: usize,
    nome: String,
    email: String,
    cpf: Cpf,
    data_criacao: String,
    data_atualizacao: String,
}

/// A [`Cliente`] as contracts see it: every text by its characters.
pub struct ClienteView {
    pub id: usize,
    pub nome: Seq<char>,
    pub email: Seq<char>,
    pub cpf: Seq<char>,
    pub data_criacao: Seq<char>,
    pub data_atualizacao: Seq<char>,
}

impl View for Cliente {
    type V = ClienteView;

    closed spec fn view(&self) -> ClienteView {
        ClienteView {
            id: self.id,
            nome: self.nome@,
            email: self.email@,
            cpf: self.cpf@,
            data_criacao: self.data_criacao@,
            data_atualizacao: self.data_atualizacao@,
        }
    }
}

impl DeepView for Cliente {
    type V = ClienteView;

    open spec fn deep_view(&self) -> ClienteView {
        self@
    }
}

impl ClienteView {
    /// What [`Cliente::validate_entity`] finds: the texts a person typed come
    /// first, the two timestamps after them.
    pub open spec fn validation(self) -> Result<(), DomainErrorView> {
        if self.nome.len() == 0 || self.email.len() == 0 {
            Err(DomainErrorView::Empty)
        } else if !chrono_parses(self.data_criacao, TIMESTAMP_FORMAT@) || !chrono_parses(
            self.data_atualizacao,
            TIMESTAMP_FORMAT@,
        ) {
            Err(DomainErrorView::Invalid(INVALID_TIMESTAMP@))
        } else {
            Ok(())
        }
    }
}

impl Cliente {
    /// Puts an account together from its parts, as they are.
    pub fn new(
        id: usize,
        nome: String,
        email: String,
        cpf: Cpf,
        data_criacao: String,
        data_atualizacao: String,
    ) -> (cliente: Self)
        ensures
            cliente@ == (ClienteView {
                id,
                nome: nome@,
                email: email@,
                cpf: cpf@,
                data_criacao: data_criacao@,
                data_atualizacao: data_atualizacao@,
            }),
    {
        Cliente { id, nome, email, cpf, data_criacao, data_atualizacao }
    }

    /// Checks the whole account: name and e-mail are not empty, and both
    /// timestamps are in the one accepted format.
    pub fn validate_entity(&self) -> (r: Result<(), DomainError>)
        ensures
            r is Ok <==> self@.validation() is Ok,
            r matches Err(e) ==> self@.validation() == Err::<(), DomainErrorView>(e@),
    {
        assert_argument_not_empty(self.nome.clone())?;
        assert_argument_not_empty(self.email.clone())?;
        assert_argument_timestamp_format(self.data_criacao.clone())?;
        assert_argument_timestamp_format(self.data_atualizacao.clone())?;
        Ok(())
    }

    pub fn id(&self) -> (id: &usize)
        ensures
            *id == self@.id,
    {
        &self.id
    }

    pub fn nome(&self) -> (nome: &String)
        ensures
            nome@ == self@.nome,
    {
        &self.nome
    }

    pub fn email(&self) -> (email: &String)
        ensures
            email@ == self@.email,
    {
        &self.email
    }

    pub fn cpf(&self) -> (cpf: &Cpf)
        ensures
            cpf@ == self@.cpf,
    {
        &self.cpf
    }

    pub fn data_criacao(&self) -> (data_criacao: &String)
        ensures
            data_criacao@ == self@.data_criacao,
    {
        &self.data_criacao
    }

    pub fn data_atualizacao(&self) -> (data_atualizacao: &String)
        ensures
            data_atualizacao@ == self@.data_atualizacao,
    {
        &self.data_atualizacao
    }

    /// Gives the account the identifier under which a store keeps it.
    pub fn set_id(&mut self, id: usize)
        ensures
            final(self)@ == (ClienteView { id, ..old(self)@ }),
    {
        self.id = id;
    }

    /// Renames the account, unless the new name is empty.
    pub fn set_nome(&mut self, nome: String) -> (r: Result<(), DomainError>)
        ensures
            nome@.len() > 0 ==> r is Ok && final(self)@ == (ClienteView {
                nome: nome@,
                ..old(self)@
            }),
            nome@.len() == 0 ==> (r matches Err(e) && e@ == DomainErrorView::Empty),
            nome@.len() == 0 ==> *final(self) == *old(self),
    {
        assert_argument_not_empty(nome.clone())?;
        self.nome = nome;
        Ok(())
    }

    /// Changes the e-mail address, unless the new one is empty.
    pub fn set_email(&mut self, email: String) -> (r: Result<(), DomainError>)
        ensures
            email@.len() > 0 ==> r is Ok && final(self)@ == (ClienteView {
                email: email@,
                ..old(self)@
            }),
            email@.len() == 0 ==> (r matches Err(e) && e@ == DomainErrorView::Empty),
            email@.len() == 0 ==> *final(self) == *old(self),
    {
        assert_argument_not_empty(email.clone())?;
        self.email = email;
        Ok(())
    }

    pub fn set_cpf(&mut self, cpf: Cpf)
        ensures
            final(self)@ == (ClienteView { cpf: cpf@, ..old(self)@ }),
    {
        self.cpf = cpf;
    }

    /// Records when the account was last changed, unless the text is not a
    /// timestamp in the accepted format.
    pub fn set_data_atualizacao(&mut self, data_atualizacao: String) -> (r: Result<
        (),
        DomainError,
    >)
        ensures
            chrono_parses(data_atualizacao@, TIMESTAMP_FORMAT@) ==> r is Ok && final(self)@ == (
            ClienteView { data_atualizacao: data_atualizacao@, ..old(self)@ }),
            !chrono_parses(data_atualizacao@, TIMESTAMP_FORMAT@) ==> (r matches Err(e) && e@
                == DomainErrorView::Invalid(INVALID_TIMESTAMP@)),
            !chrono_parses(data_atualizacao@, TIMESTAMP_FORMAT@) ==> *final(self) == *old(self),
    {
        assert_argument_timestamp_format(data_atualizacao.clone())?;
        self.data_atualizacao = data_atualizacao;
        Ok(())
    }
}

impl Clone for Cliente {
    fn clone(&self) -> (r: Self)
        ensures
            r@ == self@,
    {
        Cliente {
            id: self.id,
            nome: self.nome.clone(),
            email: self.email.clone(),
            cpf: self.cpf.clone(),
            data_criacao: self.data_criacao.clone(),
            data_atualizacao: self.data_atualizacao.clone(),
        }
    }
}

impl PartialEq for Cliente {
    /// Two accounts are equal when all six attributes are.
    fn eq(&self, other: &Self) -> (r: bool) {
        self.id == other.id && self.nome == other.nome && self.email == other.email && self.cpf
            == other.cpf && self.data_criacao == other.data_criacao && self.data_atualizacao
            == other.data_atualizacao
    }
}

impl vstd::std_specs::cmp::PartialEqSpecImpl for Cliente {
    open spec fn obeys_eq_spec() -> bool {
        true
    }

    open spec fn eq_spec(&self, other: &Self) -> bool {
        self@ == other@
    }
}

/// The first account of a listing that has the given CPF, if any has it.
pub open spec fn first_with_cpf(accounts: Seq<ClienteView>, cpf: Seq<char>) -> Option<
    ClienteView,
>
    decreases accounts.len(),
{
    if accounts.len() == 0 {
        None
    } else if accounts.first().cpf == cpf {
        Some(accounts.first())
    } else {
        first_with_cpf(accounts.drop_first(), cpf)
    }
}

/// The first account of a listing that has the given identifier, if any has it.
pub open spec fn first_with_id(accounts: Seq<ClienteView>, id: usize) -> Option<ClienteView>
    decreases accounts.len(),
{
    if accounts.len() == 0 {
        None
    } else if accounts.first().id == id {
        Some(accounts.first())
    } else {
        first_with_id(accounts.drop_first(), id)
    }
}

/// What [`first_with_cpf`] picks, said without recursion: an account of the
/// listing that has the CPF and stands before every other that has it, and
/// nothing only where no account has it.
pub proof fn lemma_first_with_cpf(accounts: Seq<ClienteView>, cpf: Seq<char>)
    ensures
        match first_with_cpf(accounts, cpf) {
            Some(found) => exists|i: int|
                0 <= i < accounts.len() && accounts[i] == found && found.cpf == cpf && forall|
                    j: int,
                | 0 <= j < i ==> (#[trigger] accounts[j]).cpf != cpf,
            None => forall|j: int| 0 <= j < accounts.len() ==> (#[trigger] accounts[j]).cpf != cpf,
        },
    decreases accounts.len(),
{
    if accounts.len() > 0 && accounts.first().cpf != cpf {
        let rest = accounts.drop_first();
        lemma_first_with_cpf(rest, cpf);
        match first_with_cpf(rest, cpf) {
            Some(found) => {
                let i = choose|i: int|
                    0 <= i < rest.len() && rest[i] == found && found.cpf == cpf && forall|j: int|
                        0 <= j < i ==> (#[trigger] rest[j]).cpf != cpf;
                assert forall|j: int| 0 <= j < i + 1 implies (#[trigger] accounts[j]).cpf
                    != cpf by {
                    if j > 0 {
                        assert(accounts[j] == rest[j - 1]);
                    }
                }
                assert(accounts[i + 1] == found);
            },
            None => {
                assert forall|j: int| 0 <= j < accounts.len() implies (#[trigger] accounts[j]).cpf
                    != cpf by {
                    if j > 0 {
                        assert(accounts[j] == rest[j - 1]);
                    }
                }
            },
        }
    } else if accounts.len() > 0 {
        assert(accounts[0] == accounts.first());
    }
}

/// What [`first_with_id`] picks, said without recursion.
pub proof fn lemma_first_with_id(accounts: Seq<ClienteView>, id: usize)
    ensures
        match first_with_id(accounts, id) {
            Some(found) => exists|i: int|
                0 <= i < accounts.len() && accounts[i] == found && found.id == id && forall|
                    j: int,
                | 0 <= j < i ==> (#[trigger] accounts[j]).id != id,
            None => forall|j: int| 0 <= j < accounts.len() ==> (#[trigger] accounts[j]).id != id,
        },
    decreases accounts.len(),
{
    if accounts.len() > 0 && accounts.first().id != id {
        let rest = accounts.drop_first();
        lemma_first_with_id(rest, id);
        match first_with_id(rest, id) {
            Some(found) => {
                let i = choose|i: int|
                    0 <= i < rest.len() && rest[i] == found && found.id == id && forall|j: int|
                        0 <= j < i ==> (#[trigger] rest[j]).id != id;
                assert forall|j: int| 0 <= j < i + 1 implies (#[trigger] accounts[j]).id
                    != id by {
                    if j > 0 {
                        assert(accounts[j] == rest[j - 1]);
                    }
                }
                assert(accounts[i + 1] == found);
            },
            None => {
                assert forall|j: int| 0 <= j < accounts.len() implies (#[trigger] accounts[j]).id
                    != id by {
                    if j > 0 {
                        assert(accounts[j] == rest[j - 1]);
                    }
                }
            },
        }
    } else if accounts.len() > 0 {
        assert(accounts[0] == accounts.first());
    }
}

/// What a lookup by CPF finds once an account has been put at the end of a
/// listing: what it found before, and the new account where it found nothing
/// and the new account has the CPF.
pub proof fn lemma_first_with_cpf_push(accounts: Seq<ClienteView>, account: ClienteView, cpf: Seq<char>)
    ensures
        first_with_cpf(accounts.push(account), cpf) == match first_with_cpf(accounts, cpf) {
            Some(found) => Some(found),
            None => if account.cpf == cpf {
                Some(account)
            } else {
                None
            },
        },
    decreases accounts.len(),
{
    let longer = accounts.push(account);
    if accounts.len() == 0 {
        assert(longer.drop_first() =~= accounts);
    } else {
        assert(longer.first() == accounts.first());
        assert(longer.drop_first() =~= accounts.drop_first().push(account));
        lemma_first_with_cpf_push(accounts.drop_first(), account, cpf);
    }
}

/// What a lookup by identifier finds once an account has been put at the end
/// of a listing: what it found before, and the new account where it found
/// nothing and the new account has the identifier.
pub proof fn lemma_first_with_id_push(accounts: Seq<ClienteView>, account: ClienteView, id: usize)
    ensures
        first_with_id(accounts.push(account), id) == match first_with_id(accounts, id) {
            Some(found) => Some(found),
            None => if account.id == id {
                Some(account)
            } else {
                None
            },
        },
    decreases accounts.len(),
{
    let longer = accounts.push(account);
    if accounts.len() == 0 {
        assert(longer.drop_first() =~= accounts);
    } else {
        assert(longer.first() == accounts.first());
        assert(longer.drop_first() =~= accounts.drop_first().push(account));
        lemma_first_with_id_push(accounts.drop_first(), account, id);
    }
}

/// What a lookup by CPF finds in two listings laid end to end: what it finds
/// in the first, and what it finds in the second where the first has nothing.
pub proof fn lemma_first_with_cpf_concat(first: Seq<ClienteView>, second: Seq<ClienteView>, cpf: Seq<char>)
    ensures
        first_with_cpf(first + second, cpf) == match first_with_cpf(first, cpf) {
            Some(found) => Some(found),
            None => first_with_cpf(second, cpf),
        },
    decreases first.len(),
{
    if first.len() == 0 {
        assert(first + second =~= second);
    } else {
        assert((first + second).first() == first.first());
        assert((first + second).drop_first() =~= first.drop_first() + second);
        lemma_first_with_cpf_concat(first.drop_first(), second, cpf);
    }
}

/// What a lookup by identifier finds in two listings laid end to end: what it
/// finds in the first, and what it finds in the second where the first has
/// nothing.
pub proof fn lemma_first_with_id_concat(first: Seq<ClienteView>, second: Seq<ClienteView>, id: usize)
    ensures
        first_with_id(first + second, id) == match first_with_id(first, id) {
            Some(found) => Some(found),
            None => first_with_id(second, id),
        },
    decreases first.len(),
{
    if first.len() == 0 {
        assert(first + second =~= second);
    } else {
        assert((first + second).first() == first.first());
        assert((first + second).drop_first() =~= first.drop_first() + second);
        lemma_first_with_id_concat(first.drop_first(), second, id);
    }
}

} // verus!
