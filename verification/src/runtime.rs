//! The bookkeeping of the event loop: which poll token stands for what.
//! Token 0 is the signal descriptor (child exits), token 1 the uevent
//! socket; every descriptor that a service registers gets a token of its
//! own above those.

use vstd::prelude::*;

verus! {

/// What an event with a given token is about.
#[derive(Debug, PartialEq, Eq, Structural, Clone, Copy)]
pub enum TokenKind {
    /// A child process changed state.
    Signal,
    /// A uevent arrived.
    Device,
    /// A registered descriptor is ready.
    Fd(i32),
    /// No descriptor has this token.
    Unknown,
}

/// The largest token in use, and at least 1.
pub open spec fn max_token(fds: Seq<(usize, i32)>) -> nat
    decreases fds.len(),
{
    if fds.len() == 0 {
        1
    } else {
        let m = max_token(fds.drop_last());
        if fds.last().0 > m {
            fds.last().0 as nat
        } else {
            m
        }
    }
}

/// The descriptor of the first entry with token `token`.
pub open spec fn fd_of(fds: Seq<(usize, i32)>, token: usize) -> Option<i32>
    decreases fds.len(),
{
    if fds.len() == 0 {
        None
    } else if fds[0].0 == token {
        Some(fds[0].1)
    } else {
        fd_of(fds.drop_first(), token)
    }
}

/// `max_token` bounds every token.
proof fn lemma_max_token_bounds(fds: Seq<(usize, i32)>)
    ensures
        max_token(fds) >= 1,
        forall|i: int| 0 <= i < fds.len() ==> fds[i].0 <= max_token(fds),
    decreases fds.len(),
{
    if fds.len() > 0 {
        lemma_max_token_bounds(fds.drop_last());
        assert forall|i: int| 0 <= i < fds.len() implies fds[i].0 <= max_token(fds) by {
            if i < fds.len() - 1 {
                assert(fds[i] == fds.drop_last()[i]);
            }
        }
    }
}

/// A token that no entry has is not found.
proof fn lemma_fd_of_absent(fds: Seq<(usize, i32)>, token: usize)
    requires
        forall|i: int| 0 <= i < fds.len() ==> fds[i].0 != token,
    ensures
        fd_of(fds, token) is None,
    decreases fds.len(),
{
    if fds.len() > 0 {
        lemma_fd_of_absent(fds.drop_first(), token);
    }
}

/// Adding an entry leaves the descriptors of the other tokens as they were,
/// and a token that was not in use finds the new descriptor.
proof fn lemma_fd_of_push(fds: Seq<(usize, i32)>, token: usize, fd: i32, t: usize)
    requires
        forall|i: int| 0 <= i < fds.len() ==> fds[i].0 != token,
    ensures
        fd_of(fds.push((token, fd)), t) == if t == token {
            Some(fd)
        } else {
            fd_of(fds, t)
        },
    decreases fds.len(),
{
    let s = fds.push((token, fd));
    if fds.len() == 0 {
        assert(s.drop_first() =~= Seq::<(usize, i32)>::empty());
    } else {
        assert(s.drop_first() =~= fds.drop_first().push((token, fd)));
        lemma_fd_of_push(fds.drop_first(), token, fd, t);
    }
}

/// No two registered descriptors share a token, and none has one of the
/// two fixed tokens.
pub open spec fn tokens_fresh(fds: Seq<(usize, i32)>) -> bool {
    &&& forall|i: int| 0 <= i < fds.len() ==> (#[trigger] fds[i]).0 >= 2
    &&& forall|i: int, j: int| 0 <= i < j < fds.len() ==> (#[trigger] fds[i]).0 != (#[trigger] fds[j]).0
}

/// Registering keeps every token distinct and clear of the fixed ones.
pub proof fn lemma_register_keeps_tokens_fresh(fds: Seq<(usize, i32)>, fd: i32)
    requires
        tokens_fresh(fds),
        max_token(fds) < usize::MAX,
    ensures
        tokens_fresh(fds.push(((max_token(fds) + 1) as usize, fd))),
{
    lemma_max_token_bounds(fds);
    let s = fds.push(((max_token(fds) + 1) as usize, fd));
    assert forall|i: int, j: int| 0 <= i < j < s.len() implies (#[trigger] s[i]).0 != (
    #[trigger] s[j]).0 by {
        if j == fds.len() {
            assert(fds[i].0 <= max_token(fds));
        } else {
            assert(s[i] == fds[i] && s[j] == fds[j]);
        }
    }
    assert forall|i: int| 0 <= i < s.len() implies (#[trigger] s[i]).0 >= 2 by {
        if i < fds.len() {
            assert(s[i] == fds[i]);
        }
    }
}

/// A registered descriptor is found again by the token it was given, and
/// registering does not change what the other tokens find.
pub proof fn lemma_register_then_lookup(fds: Seq<(usize, i32)>, fd: i32, t: usize)
    requires
        max_token(fds) < usize::MAX,
    ensures
        fd_of(fds.push(((max_token(fds) + 1) as usize, fd)), t) == if t == max_token(fds) + 1 {
            Some(fd)
        } else {
            fd_of(fds, t)
        },
{
    lemma_max_token_bounds(fds);
    lemma_fd_of_push(fds, (max_token(fds) + 1) as usize, fd, t);
}

/// The descriptors registered with the event loop, each with its token.
pub struct FdTable {
    fds: Vec<(usize, i32)>,
}

impl View for FdTable {
    type V = Seq<(usize, i32)>;

    closed spec fn view(&self) -> Seq<(usize, i32)> {
        self.fds@
    }
}

impl FdTable {
    /// No descriptor registered.
    pub fn new() -> (t: FdTable)
        ensures
            t@ == Seq::<(usize, i32)>::empty(),
    {
        FdTable { fds: Vec::new() }
    }

    /// The largest token in use, and at least 1.
    fn max_in_use(&self) -> (m: usize)
        ensures
            m == max_token(self@),
    {
        let mut last: usize = 1;
        let mut i: usize = 0;
        assert(self@.take(0) =~= Seq::<(usize, i32)>::empty());
        while i < self.fds.len()
            invariant
                i <= self@.len(),
                last == max_token(self@.take(i as int)),
            decreases self@.len() - i,
        {
            assert(self@.take(i + 1).drop_last() =~= self@.take(i as int));
            let (token, _) = self.fds[i];
            if token > last {
                last = token;
            }
            i = i + 1;
        }
        assert(self@.take(i as int) =~= self@);
        last
    }

    /// Whether another descriptor can get a token.
    pub fn has_free_token(&self) -> (b: bool)
        ensures
            b == (max_token(self@) < usize::MAX),
    {
        self.max_in_use() < usize::MAX
    }

    /// The token for the next descriptor: one more than the largest in use
    /// (at least 1, the uevent socket's), so above every token in use and
    /// above the two fixed ones.
    pub fn get_unused_token(&self) -> (token: usize)
        requires
            max_token(self@) < usize::MAX,
        ensures
            token == max_token(self@) + 1,
            token >= 2,
            forall|i: int| 0 <= i < self@.len() ==> self@[i].0 < token,
    {
        let last = self.max_in_use();
        proof {
            lemma_max_token_bounds(self@);
        }
        last + 1
    }

    /// The descriptor that has token `token`.
    pub fn get_fd_from_token(&self, token: usize) -> (r: Option<i32>)
        ensures
            r == fd_of(self@, token),
    {
        let mut i: usize = 0;
        assert(self@.skip(0) =~= self@);
        while i < self.fds.len()
            invariant
                i <= self@.len(),
                fd_of(self@, token) == fd_of(self@.skip(i as int), token),
            decreases self@.len() - i,
        {
            let (etoken, efd) = self.fds[i];
            assert(self@.skip(i as int)[0] == (etoken, efd));
            if etoken == token {
                return Some(efd);
            }
            assert(self@.skip(i as int).drop_first() =~= self@.skip(i + 1));
            i = i + 1;
        }
        None
    }

    /// Registers `fd` under a fresh token (see `get_unused_token`), which is
    /// returned.
    pub fn register(&mut self, fd: i32) -> (token: usize)
        requires
            max_token(old(self)@) < usize::MAX,
        ensures
            token == max_token(old(self)@) + 1,
            final(self)@ == old(self)@.push((token, fd)),
            fd_of(final(self)@, token) == Some(fd),
            tokens_fresh(old(self)@) ==> tokens_fresh(final(self)@),
    {
        let token = self.get_unused_token();
        self.fds.push((token, fd));
        proof {
            lemma_register_then_lookup(old(self)@, fd, token);
            if tokens_fresh(old(self)@) {
                lemma_register_keeps_tokens_fresh(old(self)@, fd);
            }
        }
        token
    }

    /// What an event with token `token` is about.
    pub fn classify(&self, token: usize) -> (k: TokenKind)
        ensures
            k == if token == 0 {
                TokenKind::Signal
            } else if token == 1 {
                TokenKind::Device
            } else {
                match fd_of(self@, token) {
                    Some(fd) => TokenKind::Fd(fd),
                    None => TokenKind::Unknown,
                }
            },
    {
        if token == 0 {
            TokenKind::Signal
        } else if token == 1 {
            TokenKind::Device
        } else {
            match self.get_fd_from_token(token) {
                Some(fd) => TokenKind::Fd(fd),
                None => TokenKind::Unknown,
            }
        }
    }
}

} // verus!
