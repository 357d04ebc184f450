//! The egress's streaming check of the password line. A stream that
//! departs from the line is not an error: it is handed, with every byte
//! taken so far, to the decoy web server.
use vstd::prelude::*;
use vstd::utf8::*;
use crate::socks::auth_line;

verus! {

broadcast use vstd::seq::group_seq_axioms;

/// Where the check of a stream stands.
#[derive(Clone, Copy, Debug, PartialEq, Eq)]
pub enum AuthStatus {
    /// Every byte so far agrees with the password line, which is not
    /// complete yet.
    Matching,
    /// The whole password line arrived.
    Authenticated,
    /// The stream departed from the line, ended, or failed: it goes to
    /// the decoy.
    Disguised,
}

/// Some byte received differs from the expected byte at its position.
pub open spec fn diverges(expected: Seq<u8>, received: Seq<u8>) -> bool {
    exists|i: int| 0 <= i < received.len() && i < expected.len() && received[i] != expected[i]
}

/// The status that the bytes received so far give.
pub open spec fn auth_status(expected: Seq<u8>, received: Seq<u8>) -> AuthStatus {
    if diverges(expected, received) {
        AuthStatus::Disguised
    } else if received.len() >= expected.len() {
        AuthStatus::Authenticated
    } else {
        AuthStatus::Matching
    }
}

pub ghost struct AuthView {
    pub expected: Seq<u8>,
    pub received: Seq<u8>,
    pub disguised: bool,
}

impl AuthView {
    pub open spec fn status(self) -> AuthStatus {
        if self.disguised {
            AuthStatus::Disguised
        } else {
            auth_status(self.expected, self.received)
        }
    }

    /// What taking the bytes of one read does; an empty read is the end
    /// of the stream.
    pub open spec fn take(self, data: Seq<u8>) -> AuthView {
        AuthView {
            expected: self.expected,
            received: self.received + data,
            disguised: self.disguised || data.len() == 0 || diverges(self.expected, self.received + data),
        }
    }

    /// What a failed read does.
    pub open spec fn fail(self) -> AuthView {
        AuthView { disguised: true, ..self }
    }

    /// Taking the reads `chunks` in order.
    pub open spec fn take_all(self, chunks: Seq<Seq<u8>>) -> AuthView
        decreases chunks.len(),
    {
        if chunks.len() == 0 {
            self
        } else {
            self.take(chunks[0]).take_all(chunks.drop_first())
        }
    }
}

/// Where a checked stream goes.
#[derive(Clone, Debug, PartialEq, Eq)]
pub enum AuthOutcome {
    /// The tunnel request follows.
    Tunnel,
    /// The stream is web traffic: these bytes open the connection to the
    /// decoy, and the relay carries the rest.
    Decoy(Vec<u8>),
}

/// The check of one stream against a password line.
pub struct Authenticator {
    expected: Vec<u8>,
    received: Vec<u8>,
    disguised: bool,
}

impl View for Authenticator {
    type V = AuthView;

    closed spec fn view(&self) -> AuthView {
        AuthView { expected: self.expected@, received: self.received@, disguised: self.disguised }
    }
}

impl Authenticator {
    /// Nothing more is ever buffered than the password line.
    pub open spec fn wf(&self) -> bool {
        &&& self@.received.len() <= self@.expected.len()
        &&& self@.expected.len() >= 2
        &&& !self@.disguised ==> !diverges(self@.expected, self@.received)
    }

    /// A check that expects `password` followed by CR LF.
    pub fn new(password: &str) -> (r: Authenticator)
        ensures
            r.wf(),
            r@.expected == auth_line(encode_utf8(password@)),
            r@.received == Seq::<u8>::empty(),
            !r@.disguised,
            r@.status() == AuthStatus::Matching,
    {
        let bytes = password.as_bytes();
        let mut expected: Vec<u8> = Vec::new();
        let mut i: usize = 0;
        while i < bytes.len()
            invariant
                i <= bytes@.len(),
                expected@ == bytes@.subrange(0, i as int),
            decreases bytes@.len() - i,
        {
            expected.push(bytes[i]);
            i = i + 1;
        }
        expected.push(13u8);
        expected.push(10u8);
        assert(expected@ =~= auth_line(encode_utf8(password@)));
        let r = Authenticator { expected, received: Vec::new(), disguised: false };
        assert(!diverges(r@.expected, r@.received));
        r
    }

    /// Where the check stands.
    pub fn status(&self) -> (r: AuthStatus)
        requires
            self.wf(),
        ensures
            r == self@.status(),
    {
        if self.disguised {
            AuthStatus::Disguised
        } else if self.received.len() >= self.expected.len() {
            AuthStatus::Authenticated
        } else {
            AuthStatus::Matching
        }
    }

    /// How many bytes the next read may take: what is left of the line.
    pub fn wanted(&self) -> (r: usize)
        requires
            self.wf(),
        ensures
            r == self@.expected.len() - self@.received.len(),
    {
        self.expected.len() - self.received.len()
    }

    /// Takes the bytes of one read, an empty one being the end of the
    /// stream, and says where the check then stands.
    pub fn on_bytes(&mut self, data: &[u8]) -> (r: AuthStatus)
        requires
            old(self).wf(),
            old(self)@.status() == AuthStatus::Matching,
            data@.len() <= old(self)@.expected.len() - old(self)@.received.len(),
        ensures
            final(self).wf(),
            final(self)@ == old(self)@.take(data@),
            r == final(self)@.status(),
    {
        let start: usize = self.received.len();
        let ghost e = self.expected@;
        let ghost r0 = self.received@;
        let lim: usize = self.expected.len();
        let mut mismatch = false;
        let mut i: usize = 0;
        while i < data.len()
            invariant
                self.received@.len() <= self.expected@.len(),
                self.expected@.len() >= 2,
                lim == e.len(),
                self.expected@ == e,
                start == r0.len(),
                start + data@.len() <= e.len(),
                i <= data@.len(),
                self.received@ == r0 + data@.subrange(0, i as int),
                self.disguised == old(self).disguised,
                !self.disguised,
                mismatch == (exists|j: int| 0 <= j < i && data@[j] != e[start + j]),
            decreases data@.len() - i,
        {
            if data[i] != self.expected[start + i] {
                mismatch = true;
            }
            self.received.push(data[i]);
            i = i + 1;
            proof {
                if !mismatch {
                    assert forall|j: int| 0 <= j < i implies data@[j] == e[start + j] by {}
                }
            }
        }
        assert(data@.subrange(0, data@.len() as int) =~= data@);
        if data.len() == 0 || mismatch {
            self.disguised = true;
        }
        let ghost rcv = self.received@;
        proof {
            assert(!diverges(e, r0));
            if mismatch {
                let j = choose|j: int| 0 <= j < data@.len() && data@[j] != e[start + j];
                assert(rcv[start + j] != e[start + j]);
                assert(diverges(e, rcv));
            } else {
                assert forall|k: int| 0 <= k < rcv.len() && k < e.len() implies rcv[k] == e[k] by {
                    if k >= start {
                        assert(data@[k - start] == e[start + (k - start)]);
                    }
                }
                assert(!diverges(e, rcv));
            }
        }
        if self.disguised {
            AuthStatus::Disguised
        } else if self.received.len() >= self.expected.len() {
            AuthStatus::Authenticated
        } else {
            AuthStatus::Matching
        }
    }

    /// A read failed: the stream goes to the decoy.
    pub fn on_read_error(&mut self) -> (r: AuthStatus)
        requires
            old(self).wf(),
        ensures
            final(self).wf(),
            final(self)@ == old(self)@.fail(),
            r == AuthStatus::Disguised,
    {
        self.disguised = true;
        AuthStatus::Disguised
    }

    /// Where the stream goes once the check has decided: a disguised
    /// stream takes every byte read so far, in order, to the decoy.
    pub fn outcome(self) -> (r: Option<AuthOutcome>)
        requires
            self.wf(),
        ensures
            self@.status() == AuthStatus::Matching <==> r is None,
            self@.status() == AuthStatus::Authenticated <==> r == Some(AuthOutcome::Tunnel),
            self@.status() == AuthStatus::Disguised <==> (r matches Some(AuthOutcome::Decoy(b))
                && b@ == self@.received),
    {
        match self.status() {
            AuthStatus::Matching => None,
            AuthStatus::Authenticated => Some(AuthOutcome::Tunnel),
            AuthStatus::Disguised => Some(AuthOutcome::Decoy(self.received)),
        }
    }

    /// Every byte taken from the stream, in order.
    pub fn captured(&self) -> (r: &[u8])
        ensures
            r@ == self@.received,
    {
        self.received.as_slice()
    }
}

/// A stream that opens with the password line is authenticated once the
/// line is taken. One whose first departure from the line is at position
/// `j` is still matching while it has given at most `j` bytes, and is
/// disguised once the departing byte is taken.
pub proof fn lemma_auth_decides_at_first_departure(password: Seq<u8>, input: Seq<u8>, j: int)
    requires
        0 <= j,
    ensures
        input.len() >= auth_line(password).len() && input.take(
            auth_line(password).len() as int,
        ) == auth_line(password) ==> auth_status(
            auth_line(password),
            input.take(auth_line(password).len() as int),
        ) == AuthStatus::Authenticated,
        j < auth_line(password).len() && j < input.len() && input[j] != auth_line(password)[j]
            && (forall|i: int| 0 <= i < j ==> input[i] == auth_line(password)[i]) ==> {
            &&& (forall|c: int|
                0 <= c <= j ==> auth_status(auth_line(password), #[trigger] input.take(c))
                    == AuthStatus::Matching)
            &&& auth_status(auth_line(password), input.take(j + 1)) == AuthStatus::Disguised
        },
{
    let e = auth_line(password);
    if input.len() >= e.len() && input.take(e.len() as int) == e {
        assert(!diverges(e, input.take(e.len() as int)));
    }
    if j < e.len() && j < input.len() && input[j] != e[j] && (forall|i: int|
        0 <= i < j ==> input[i] == e[i]) {
        assert forall|c: int| 0 <= c <= j implies auth_status(e, #[trigger] input.take(c))
            == AuthStatus::Matching by {
            assert(!diverges(e, input.take(c)));
        }
        assert(input.take(j + 1)[j] != e[j]);
    }
}

/// The bytes captured after any run of reads are exactly the bytes those
/// reads delivered, in order, after those captured before: none is
/// dropped or repeated on the way to the decoy.
pub proof fn lemma_captured_is_all_input(v: AuthView, chunks: Seq<Seq<u8>>)
    ensures
        v.take_all(chunks).received == v.received + chunks.flatten(),
        v.take_all(chunks).expected == v.expected,
    decreases chunks.len(),
{
    if chunks.len() > 0 {
        lemma_captured_is_all_input(v.take(chunks[0]), chunks.drop_first());
        assert(v.received + chunks.flatten() =~= v.received + chunks[0]
            + chunks.drop_first().flatten());
    }
}

} // verus!
