//! Staff accounts: administrators and kitchen operators.

use vstd::prelude::*;
use vstd::string::StringExecFns;

use crate::base::assertion_concern::{
    assert_argument_not_empty, assert_argument_timestamp_format, chrono_parses,
    INVALID_TIMESTAMP, TIMESTAMP_FORMAT,
};
use crate::base::domain_error::{DomainError, DomainErrorView};
use crate::base::text::same_text;
use crate::entities::cpf::Cpf;

verus! {

/// Whether an account may be used.
#[derive(Clone, Copy, Debug, PartialEq, Eq, Structural)]
pub enum Status {
    Ativo,
    Inativo,
}

impl Status {
    /// The name under which the status is written down.
    pub open spec fn text(self) -> Seq<char> {
        match self {
            Status::Ativo => "Ativo"@,
            Status::Inativo => "Inativo"@,
        }
    }

    /// The status that `text` names, if it names one.
    pub open spec fn named(text: Seq<char>) -> Option<Status> {
        if text == "Ativo"@ {
            Some(Status::Ativo)
        } else if text == "Inativo"@ {
            Some(Status::Inativo)
        } else {
            None
        }
    }

    /// Reads a status from its name; any other text is refused.
    pub fn from_str(input: &str) -> (r: Result<Status, ()>)
        ensures
            r.ok() == Status::named(input@),
    {
        if same_text(input, "Ativo") {
            Ok(Status::Ativo)
        } else if same_text(input, "Inativo") {
            Ok(Status::Inativo)
        } else {
            Err(())
        }
    }

    /// Writes the status as its name.
    pub fn to_string(&self) -> (s: String)
        ensures
            s@ == self.text(),
    {
        match self {
            Status::Ativo => String::from_str("Ativo"),
            Status::Inativo => String::from_str("Inativo"),
        }
    }
}

impl std::str::FromStr for Status {
    type Err = ();

    /// Reads a status from its name, as [`Status::from_str`] does.
    fn from_str(input: &str) -> (r: Result<Status, ()>)
        ensures
            r.ok() == Status::named(input@),
    {
        Status::from_str(input)
    }
}

/// What a staff account is for.
#[derive(Clone, Copy, Debug, PartialEq, Eq, Structural)]
pub enum Tipo {
    Admin,
    Cozinha,
}

impl Tipo {
    /// The name under which the role is written down.
    pub open spec fn text(self) -> Seq<char> {
        match self {
            Tipo::Admin => "Admin"@,
            Tipo::Cozinha => "Cozinha"@,
        }
    }

    /// The role that `text` names, if it names one.
    pub open spec fn named(text: Seq<char>) -> Option<Tipo> {
        if text == "Admin"@ {
            Some(Tipo::Admin)
        } else if text == "Cozinha"@ {
            Some(Tipo::Cozinha)
        } else {
            None
        }
    }

    /// Reads a role from its name; any other text is refused.
    pub fn from_str(input: &str) -> (r: Result<Tipo, ()>)
        ensures
            r.ok() == Tipo::named(input@),
    {
        if same_text(input, "Admin") {
            Ok(Tipo::Admin)
        } else if same_text(input, "Cozinha") {
            Ok(Tipo::Cozinha)
        } else {
            Err(())
        }
    }

    /// Writes the role as its name.
    pub fn to_string(&self) -> (s: String)
        ensures
            s@ == self.text(),
    {
        match self {
            Tipo::Admin => String::from_str("Admin"),
            Tipo::Cozinha => String::from_str("Cozinha"),
        }
    }
}

impl std::str::FromStr for Tipo {
    type Err = ();

    /// Reads a role from its name, as [`Tipo::from_str`] does.
    fn from_str(input: &str) -> (r: Result<Tipo, ()>)
        ensures
            r.ok() == Tipo::named(input@),
    {
        Tipo::from_str(input)
    }
}

/// A role or a status that was written as its name is read back from it.
pub proof fn lemma_names_round_trip(tipo: Tipo, status: Status)
    ensures
        Tipo::named(tipo.text()) == Some(tipo),
        Status::named(status.text()) == Some(status),
{
    reveal_strlit("Admin");
    reveal_strlit("Cozinha");
    reveal_strlit("Ativo");
    reveal_strlit("Inativo");
    assert("Admin"@.len() != "Cozinha"@.len());
    assert("Ativo"@.len() != "Inativo"@.len());
}

/// A staff account.
#[derive(Debug)]
pub struct Usuario {
    id: usize,
    nome: String,
    email: String,
    cpf: Cpf,
    senha: String,
    tipo: Tipo,
    status: Status,
    data_criacao: String,
    data_atualizacao: String,
}

/// A [`Usuario`] as contracts see it: every text by its characters.
pub struct UsuarioView {
    pub id: usize,
    pub nome: Seq<char>,
    pub email: Seq<char>,
    pub cpf: Seq<char>,
    pub senha: Seq<char>,
    pub tipo: Tipo,
    pub status: Status,
    pub data_criacao: Seq<char>,
    pub data_atualizacao: Seq<char>,
}

impl View for Usuario {
    type V = UsuarioView;

    closed spec fn view(&self) -> UsuarioView {
        UsuarioView {
            id: self.id,
            nome: self.nome@,
            email: self.email@,
            cpf: self.cpf@,
            senha: self.senha@,
            tipo: self.tipo,
            status: self.status,
            data_criacao: self.data_criacao@,
            data_atualizacao: self.data_atualizacao@,
        }
    }
}

impl DeepView for Usuario {
    type V = UsuarioView;

    open spec fn deep_view(&self) -> UsuarioView {
        self@
    }
}

impl UsuarioView {
    /// What [`Usuario::validate_entity`] finds: the texts a person typed come
    /// first, the two timestamps after them.
    pub open spec fn validation(self) -> Result<(), DomainErrorView> {
        if self.nome.len() == 0 || self.email.len() == 0 || self.senha.len() == 0 {
            Err(DomainErrorView::Empty)
        } else if !chrono_parses(self.data_criacao, TIMESTAMP_FORMAT@) || !chrono_parses(
            self.data_atualizacao,
            TIMESTAMP_FORMAT@,
        ) {
            Err(DomainErrorView::Invalid(INVALID_TIMESTAMP@))
        } else {
            Ok(())
        }
    }
}

impl Usuario {
    /// Puts an account together from its parts, as they are.
    pub fn new(
        id: usize,
        nome: String,
        email: String,
        cpf: Cpf,
        senha: String,
        tipo: Tipo,
        status: Status,
        data_criacao: String,
        data_atualizacao: String,
    ) -> (usuario: Self)
        ensures
            usuario@ == (UsuarioView {
                id,
                nome: nome@,
                email: email@,
                cpf: cpf@,
                senha: senha@,
                tipo,
                status,
                data_criacao: data_criacao@,
                data_atualizacao: data_atualizacao@,
            }),
    {
        Usuario { id, nome, email, cpf, senha, tipo, status, data_criacao, data_atualizacao }
    }

    /// Checks the whole account: name, e-mail and secret are not empty, and both
    /// timestamps are in the one accepted format.
    pub fn validate_entity(&self) -> (r: Result<(), DomainError>)
        ensures
            r is Ok <==> self@.validation() is Ok,
            r matches Err(e) ==> self@.validation() == Err::<(), DomainErrorView>(e@),
    {
        assert_argument_not_empty(self.nome.clone())?;
        assert_argument_not_empty(self.email.clone())?;
        assert_argument_not_empty(self.senha.clone())?;
        assert_argument_timestamp_format(self.data_criacao.clone())?;
        assert_argument_timestamp_format(self.data_atualizacao.clone())?;
        Ok(())
    }

    pub fn id(&self) -> (id: &usize)
        ensures
            *id == self@.id,
    {
        &self.id
    }

    pub fn nome(&self) -> (nome: &String)
        ensures
            nome@ == self@.nome,
    {
        &self.nome
    }

    pub fn email(&self) -> (email: &String)
        ensures
            email@ == self@.email,
    {
        &self.email
    }

    pub fn senha(&self) -> (senha: &String)
        ensures
            senha@ == self@.senha,
    {
        &self.senha
    }

    pub fn cpf(&self) -> (cpf: &Cpf)
        ensures
            cpf@ == self@.cpf,
    {
        &self.cpf
    }

    /// Whether `senha` is the secret of this account.
    pub fn validate_senha(&self, senha: &String) -> (matches: bool)
        ensures
            matches == (senha@ == self@.senha),
    {
        self.senha == *senha
    }

    pub fn tipo(&self) -> (tipo: &Tipo)
        ensures
            *tipo == self@.tipo,
    {
        &self.tipo
    }

    pub fn status(&self) -> (status: &Status)
        ensures
            *status == self@.status,
    {
        &self.status
    }

    pub fn data_criacao(&self) -> (data_criacao: &String)
        ensures
            data_criacao@ == self@.data_criacao,
    {
        &self.data_criacao
    }

    pub fn data_atualizacao(&self) -> (data_atualizacao: &String)
        ensures
            data_atualizacao@ == self@.data_atualizacao,
    {
        &self.data_atualizacao
    }

    /// Gives the account the identifier under which a store keeps it.
    pub fn set_id(&mut self, id: usize)
        ensures
            final(self)@ == (UsuarioView { id, ..old(self)@ }),
    {
        self.id = id;
    }

    /// Renames the account, unless the new name is empty.
    pub fn set_nome(&mut self, nome: String) -> (r: Result<(), DomainError>)
        ensures
            nome@.len() > 0 ==> r is Ok && final(self)@ == (UsuarioView {
                nome: nome@,
                ..old(self)@
            }),
            nome@.len() == 0 ==> (r matches Err(e) && e@ == DomainErrorView::Empty),
            nome@.len() == 0 ==> *final(self) == *old(self),
    {
        assert_argument_not_empty(nome.clone())?;
        self.nome = nome;
        Ok(())
    }

    /// Changes the e-mail address, unless the new one is empty.
    pub fn set_email(&mut self, email: String) -> (r: Result<(), DomainError>)
        ensures
            email@.len() > 0 ==> r is Ok && final(self)@ == (UsuarioView {
                email: email@,
                ..old(self)@
            }),
            email@.len() == 0 ==> (r matches Err(e) && e@ == DomainErrorView::Empty),
            email@.len() == 0 ==> *final(self) == *old(self),
    {
        assert_argument_not_empty(email.clone())?;
        self.email = email;
        Ok(())
    }

    pub fn set_cpf(&mut self, cpf: Cpf)
        ensures
            final(self)@ == (UsuarioView { cpf: cpf@, ..old(self)@ }),
    {
        self.cpf = cpf;
    }

    /// Changes the secret, unless the new one is empty.
    pub fn set_senha(&mut self, senha: String) -> (r: Result<(), DomainError>)
        ensures
            senha@.len() > 0 ==> r is Ok && final(self)@ == (UsuarioView {
                senha: senha@,
                ..old(self)@
            }),
            senha@.len() == 0 ==> (r matches Err(e) && e@ == DomainErrorView::Empty),
            senha@.len() == 0 ==> *final(self) == *old(self),
    {
        assert_argument_not_empty(senha.clone())?;
        self.senha = senha;
        Ok(())
    }

    pub fn set_tipo(&mut self, tipo: Tipo)
        ensures
            final(self)@ == (UsuarioView { tipo, ..old(self)@ }),
    {
        self.tipo = tipo;
    }

    pub fn set_status(&mut self, status: Status)
        ensures
            final(self)@ == (UsuarioView { status, ..old(self)@ }),
    {
        self.status = status;
    }

    /// Records when the account was last changed, unless the text is not a
    /// timestamp in the accepted format.
    pub fn set_data_atualizacao(&mut self, data_atualizacao: String) -> (r: Result<
        (),
        DomainError,
    >)
        ensures
            chrono_parses(data_atualizacao@, TIMESTAMP_FORMAT@) ==> r is Ok && final(self)@ == (
            UsuarioView { data_atualizacao: data_atualizacao@, ..old(self)@ }),
            !chrono_parses(data_atualizacao@, TIMESTAMP_FORMAT@) ==> (r matches Err(e) && e@
                == DomainErrorView::Invalid(INVALID_TIMESTAMP@)),
            !chrono_parses(data_atualizacao@, TIMESTAMP_FORMAT@) ==> *final(self) == *old(self),
    {
        assert_argument_timestamp_format(data_atualizacao.clone())?;
        self.data_atualizacao = data_atualizacao;
        Ok(())
    }
}

impl Clone for Usuario {
    fn clone(&self) -> (r: Self)
        ensures
            r@ == self@,
    {
        Usuario {
            id: self.id,
            nome: self.nome.clone(),
            email: self.email.clone(),
            cpf: self.cpf.clone(),
            senha: self.senha.clone(),
            tipo: self.tipo,
            status: self.status,
            data_criacao: self.data_criacao.clone(),
            data_atualizacao: self.data_atualizacao.clone(),
        }
    }
}

impl PartialEq for Usuario {
    /// Two accounts are equal when all nine attributes are.
    fn eq(&self, other: &Self) -> (r: bool) {
        self.id == other.id && self.nome == other.nome && self.email == other.email && self.cpf
            == other.cpf && self.senha == other.senha && self.tipo == other.tipo && self.status
            == other.status && self.data_criacao == other.data_criacao && self.data_atualizacao
            == other.data_atualizacao
    }
}

impl vstd::std_specs::cmp::PartialEqSpecImpl for Usuario {
    open spec fn obeys_eq_spec() -> bool {
        true
    }

    open spec fn eq_spec(&self, other: &Self) -> bool {
        self@ == other@
    }
}

/// The first account of a listing that has the given CPF, if any has it.
pub open spec fn first_with_cpf(accounts: Seq<UsuarioView>, cpf: Seq<char>) -> Option<
    UsuarioView,
>
    decreases accounts.len(),
{
    if accounts.len() == 0 {
        None
    } else if accounts.first().cpf == cpf {
        Some(accounts.first())
    } else {
        first_with_cpf(accounts.drop_first(), cpf)
    }
}

/// The first account of a listing that has the given identifier, if any has it.
pub open spec fn first_with_id(accounts: Seq<UsuarioView>, id: usize) -> Option<UsuarioView>
    decreases accounts.len(),
{
    if accounts.len() == 0 {
        None
    } else if accounts.first().id == id {
        Some(accounts.first())
    } else {
        first_with_id(accounts.drop_first(), id)
    }
}

/// What [`first_with_cpf`] picks, said without recursion: an account of the
/// listing that has the CPF and stands before every other that has it, and
/// nothing only where no account has it.
pub proof fn lemma_first_with_cpf(accounts: Seq<UsuarioView>, cpf: Seq<char>)
    ensures
        match first_with_cpf(accounts, cpf) {
            Some(found) => exists|i: int|
                0 <= i < accounts.len() && accounts[i] == found && found.cpf == cpf && forall|
                    j: int,
                | 0 <= j < i ==> (#[trigger] accounts[j]).cpf != cpf,
            None => forall|j: int| 0 <= j < accounts.len() ==> (#[trigger] accounts[j]).cpf != cpf,
        },
    decreases accounts.len(),
{
    if accounts.len() > 0 && accounts.first().cpf != cpf {
        let rest = accounts.drop_first();
        lemma_first_with_cpf(rest, cpf);
        match first_with_cpf(rest, cpf) {
            Some(found) => {
                let i = choose|i: int|
                    0 <= i < rest.len() && rest[i] == found && found.cpf == cpf && forall|j: int|
                        0 <= j < i ==> (#[trigger] rest[j]).cpf != cpf;
                assert forall|j: int| 0 <= j < i + 1 implies (#[trigger] accounts[j]).cpf
                    != cpf by {
                    if j > 0 {
                        assert(accounts[j] == rest[j - 1]);
                    }
                }
                assert(accounts[i + 1] == found);
            },
            None => {
                assert forall|j: int| 0 <= j < accounts.len() implies (#[trigger] accounts[j]).cpf
                    != cpf by {
                    if j > 0 {
                        assert(accounts[j] == rest[j - 1]);
                    }
                }
            },
        }
    } else if accounts.len() > 0 {
        assert(accounts[0] == accounts.first());
    }
}

/// What [`first_with_id`] picks, said without recursion.
pub proof fn lemma_first_with_id(accounts: Seq<UsuarioView>, id: usize)
    ensures
        match first_with_id(accounts, id) {
            Some(found) => exists|i: int|
                0 <= i < accounts.len() && accounts[i] == found && found.id == id && forall|
                    j: int,
                | 0 <= j < i ==> (#[trigger] accounts[j]).id != id,
            None => forall|j: int| 0 <= j < accounts.len() ==> (#[trigger] accounts[j]).id != id,
        },
    decreases accounts.len(),
{
    if accounts.len() > 0 && accounts.first().id != id {
        let rest = accounts.drop_first();
        lemma_first_with_id(rest, id);
        match first_with_id(rest, id) {
            Some(found) => {
                let i = choose|i: int|
                    0 <= i < rest.len() && rest[i] == found && found.id == id && forall|j: int|
                        0 <= j < i ==> (#[trigger] rest[j]).id != id;
                assert forall|j: int| 0 <= j < i + 1 implies (#[trigger] accounts[j]).id
                    != id by {
                    if j > 0 {
                        assert(accounts[j] == rest[j - 1]);
                    }
                }
                assert(accounts[i + 1] == found);
            },
            None => {
                assert forall|j: int| 0 <= j < accounts.len() implies (#[trigger] accounts[j]).id
                    != id by {
                    if j > 0 {
                        assert(accounts[j] == rest[j - 1]);
                    }
                }
            },
        }
    } else if accounts.len() > 0 {
        assert(accounts[0] == accounts.first());
    }
}

/// What a lookup by CPF finds once an account has been put at the end of a
/// listing: what it found before, and the new account where it found nothing
/// and the new account has the CPF.
pub proof fn lemma_first_with_cpf_push(accounts: Seq<UsuarioView>, account: UsuarioView, cpf: Seq<char>)
    ensures
        first_with_cpf(accounts.push(account), cpf) == match first_with_cpf(accounts, cpf) {
            Some(found) => Some(found),
            None => if account.cpf == cpf {
                Some(account)
            } else {
                None
            },
        },
    decreases accounts.len(),
{
    let longer = accounts.push(account);
    if accounts.len() == 0 {
        assert(longer.drop_first() =~= accounts);
    } else {
        assert(longer.first() == accounts.first());
        assert(longer.drop_first() =~= accounts.drop_first().push(account));
        lemma_first_with_cpf_push(accounts.drop_first(), account, cpf);
    }
}

/// What a lookup by identifier finds once an account has been put at the end
/// of a listing: what it found before, and the new account where it found
/// nothing and the new account has the identifier.
pub proof fn lemma_first_with_id_push(accounts: Seq<UsuarioView>, account: UsuarioView, id: usize)
    ensures
        first_with_id(accounts.push(account), id) == match first_with_id(accounts, id) {
            Some(found) => Some(found),
            None => if account.id == id {
                Some(account)
            } else {
                None
            },
        },
    decreases accounts.len(),
{
    let longer = accounts.push(account);
    if accounts.len() == 0 {
        assert(longer.drop_first() =~= accounts);
    } else {
        assert(longer.first() == accounts.first());
        assert(longer.drop_first() =~= accounts.drop_first().push(account));
        lemma_first_with_id_push(accounts.drop_first(), account, id);
    }
}

/// What a lookup by CPF finds in two listings laid end to end: what it finds
/// in the first, and what it finds in the second where the first has nothing.
pub proof fn lemma_first_with_cpf_concat(first: Seq<UsuarioView>, second: Seq<UsuarioView>, cpf: Seq<char>)
    ensures
        first_with_cpf(first + second, cpf) == match first_with_cpf(first, cpf) {
            Some(found) => Some(found),
            None => first_with_cpf(second, cpf),
        },
    decreases first.len(),
{
    if first.len() == 0 {
        assert(first + second =~= second);
    } else {
        assert((first + second).first() == first.first());
        assert((first + second).drop_first() =~= first.drop_first() + second);
        lemma_first_with_cpf_concat(first.drop_first(), second, cpf);
    }
}

/// What a lookup by identifier finds in two listings laid end to end: what it
/// finds in the first, and what it finds in the second where the first has
/// nothing.
pub proof fn lemma_first_with_id_concat(first: Seq<UsuarioView>, second: Seq<UsuarioView>, id: usize)
    ensures
        first_with_id(first + second, id) == match first_with_id(first, id) {
            Some(found) => Some(found),
            None => first_with_id(second, id),
        },
    decreases first.len(),
{
    if first.len() == 0 {
        assert(first + second =~= second);
    } else {
        assert((first + second).first() == first.first());
        assert((first + second).drop_first() =~= first.drop_first() + second);
        lemma_first_with_id_concat(first.drop_first(), second, id);
    }
}

} // verus!
