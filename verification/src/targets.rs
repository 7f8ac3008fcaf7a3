//! The servers under test and the names derived from them.

use crate::text::{
    decimal_text, is_digit, lemma_decimal_text_digits, lemma_decimal_text_injective, push_decimal,
};
use vstd::prelude::*;
use vstd::string::*;

verus! {

/// Describes a test target.
#[derive(Debug, Clone, Copy)]
pub struct TestTarget<'a> {
    /// A name for the server under test (e.g. "language/framework").
    pub server_name: &'a str,
    /// The number of CPUs the server is using for this test.
    pub num_cpus: usize,
    /// The amount of RAM, in MB, the server is using for this test.
    pub ram_mb: usize,
    /// Whether or not these tests accept compressed results.
    pub is_compressed: bool,
}

/// `s` with every `/` replaced by `-`.
pub open spec fn slashes_to_dashes(s: Seq<char>) -> Seq<char> {
    Seq::new(
        s.len(),
        |i: int|
            if s[i] == '/' {
                '-'
            } else {
                s[i]
            },
    )
}

/// The word that stands for the compression flag in a target's name.
pub open spec fn compression_label(is_compressed: bool) -> Seq<char> {
    if is_compressed {
        "compressed"@
    } else {
        "uncompressed"@
    }
}

/// The name of a target with the given fields:
/// `<server>-<compressed|uncompressed>-cpus-<cpus>-ram-<ram>m`, where
/// `<server>` is the server name with `/` replaced by `-`.
pub open spec fn target_name(
    server_name: Seq<char>,
    is_compressed: bool,
    num_cpus: nat,
    ram_mb: nat,
) -> Seq<char> {
    slashes_to_dashes(server_name) + "-"@ + compression_label(is_compressed) + "-cpus-"@
        + decimal_text(num_cpus) + "-ram-"@ + decimal_text(ram_mb) + "m"@
}

impl<'a> TestTarget<'a> {
    /// The image name of this target: `hello-<server_name>`.
    pub open spec fn spec_docker_target(&self) -> Seq<char> {
        "hello-"@ + self.server_name@
    }

    /// The container name of this target.
    pub open spec fn spec_name(&self) -> Seq<char> {
        target_name(
            self.server_name@,
            self.is_compressed,
            self.num_cpus as nat,
            self.ram_mb as nat,
        )
    }

    /// Gets the expected docker target name ("hello-<server_name>").
    pub fn docker_target(&self) -> (result: String)
        ensures
            result@ == self.spec_docker_target(),
    {
        let mut out = String::new();
        out.append("hello-");
        out.append(self.server_name);
        assert(out@ =~= "hello-"@ + self.server_name@);
        out
    }

    /// Converts this target to a unique name. The name holds no `/`, so it
    /// can serve as a container name and as a directory name.
    pub fn name(&self) -> (result: String)
        ensures
            result@ == self.spec_name(),
            !result@.contains('/'),
    {
        let mut out = String::new();
        push_dashed(&mut out, self.server_name);
        assert(out@ =~= slashes_to_dashes(self.server_name@));
        out.append("-");
        if self.is_compressed {
            out.append("compressed");
        } else {
            out.append("uncompressed");
        }
        out.append("-cpus-");
        push_decimal(&mut out, self.num_cpus as u128);
        out.append("-ram-");
        push_decimal(&mut out, self.ram_mb as u128);
        out.append("m");
        proof {
            lemma_name_has_no_slash(
                self.server_name@,
                self.is_compressed,
                self.num_cpus as nat,
                self.ram_mb as nat,
            );
        }
        out
    }
}

/// Appends `s` to `out` with every `/` replaced by `-`.
fn push_dashed(out: &mut String, s: &str)
    ensures
        final(out)@ == old(out)@ + slashes_to_dashes(s@),
{
    for c in it: s.chars()
        invariant
            it.seq() == s@,
            out@ == old(out)@ + slashes_to_dashes(s@.take(it.index() as int)),
    {
        let ghost k = it.index() as int;
        if c == '/' {
            out.push('-');
        } else {
            out.push(c);
        }
        assert(out@ =~= old(out)@ + slashes_to_dashes(s@.take(k + 1)));
    }
    assert(s@.take(s@.len() as int) =~= s@);
}

/// A target's name holds no `/`.
pub proof fn lemma_name_has_no_slash(
    server_name: Seq<char>,
    is_compressed: bool,
    num_cpus: nat,
    ram_mb: nat,
)
    ensures
        !target_name(server_name, is_compressed, num_cpus, ram_mb).contains('/'),
{
    reveal_strlit("-");
    reveal_strlit("compressed");
    reveal_strlit("uncompressed");
    reveal_strlit("-cpus-");
    reveal_strlit("-ram-");
    reveal_strlit("m");
    lemma_decimal_text_digits(num_cpus);
    lemma_decimal_text_digits(ram_mb);
    let a = slashes_to_dashes(server_name);
    let b = "-"@;
    let c = compression_label(is_compressed);
    let d = "-cpus-"@;
    let e = decimal_text(num_cpus);
    let f = "-ram-"@;
    let g = decimal_text(ram_mb);
    let h = "m"@;
    assert(!a.contains('/'));
    assert(!b.contains('/'));
    assert(!c.contains('/'));
    assert(!d.contains('/'));
    assert(!e.contains('/'));
    assert(!f.contains('/'));
    assert(!g.contains('/'));
    assert(!h.contains('/'));
    lemma_concat_lacks(a, b, '/');
    lemma_concat_lacks(a + b, c, '/');
    lemma_concat_lacks(a + b + c, d, '/');
    lemma_concat_lacks(a + b + c + d, e, '/');
    lemma_concat_lacks(a + b + c + d + e, f, '/');
    lemma_concat_lacks(a + b + c + d + e + f, g, '/');
    lemma_concat_lacks(a + b + c + d + e + f + g, h, '/');
}

/// A character that neither part holds is not in their concatenation.
proof fn lemma_concat_lacks(a: Seq<char>, b: Seq<char>, c: char)
    requires
        !a.contains(c),
        !b.contains(c),
    ensures
        !(a + b).contains(c),
{
    if (a + b).contains(c) {
        let i = choose|i: int| 0 <= i < (a + b).len() && (a + b)[i] == c;
        if i < a.len() {
            assert(a[i] == c);
        } else {
            assert(b[i - a.len()] == c);
        }
    }
}

/// Equal strings that end in the same text begin with the same text.
proof fn lemma_cancel_suffix(a: Seq<char>, b: Seq<char>, x: Seq<char>)
    requires
        a + x == b + x,
    ensures
        a == b,
{
    let ax = a + x;
    let bx = b + x;
    assert(ax.len() == a.len() + x.len());
    assert(bx.len() == b.len() + x.len());
    assert forall|i: int| 0 <= i < a.len() implies a[i] == b[i] by {
        assert(ax[i] == a[i]);
        assert(bx[i] == b[i]);
    }
    assert(a =~= b);
}

/// Where two strings are equal and each is a text that ends in a character
/// other than a digit, followed by digits only, the texts are equal and so
/// are the digits.
proof fn lemma_split_digit_tail(x1: Seq<char>, d1: Seq<char>, x2: Seq<char>, d2: Seq<char>)
    requires
        x1 + d1 == x2 + d2,
        x1.len() > 0 && !is_digit(x1.last()),
        x2.len() > 0 && !is_digit(x2.last()),
        forall|i: int| 0 <= i < d1.len() ==> is_digit(#[trigger] d1[i]),
        forall|i: int| 0 <= i < d2.len() ==> is_digit(#[trigger] d2[i]),
    ensures
        x1 == x2,
        d1 == d2,
{
    let whole = x1 + d1;
    assert(whole.len() == x1.len() + d1.len());
    assert((x2 + d2).len() == x2.len() + d2.len());
    if x1.len() > x2.len() {
        let i = x1.len() - 1;
        assert(whole[i] == x1.last());
        assert((x2 + d2)[i] == d2[i - x2.len()]);
        assert(is_digit(d2[i - x2.len()]));
    } else if x2.len() > x1.len() {
        let i = x2.len() - 1;
        assert((x2 + d2)[i] == x2.last());
        assert(whole[i] == d1[i - x1.len()]);
        assert(is_digit(d1[i - x1.len()]));
    }
    assert(x1.len() == x2.len());
    assert forall|i: int| 0 <= i < x1.len() implies x1[i] == x2[i] by {
        assert(whole[i] == x1[i]);
        assert((x2 + d2)[i] == x2[i]);
    }
    assert(x1 =~= x2);
    assert forall|i: int| 0 <= i < d1.len() implies d1[i] == d2[i] by {
        assert(whole[x1.len() + i] == d1[i]);
        assert((x2 + d2)[x2.len() + i] == d2[i]);
    }
    assert(d1 =~= d2);
}

/// A target's name fixes the compression flag, the CPU count, the RAM size
/// and the server name up to the replacement of `/` by `-`.
pub proof fn lemma_name_determines_fields(
    server1: Seq<char>,
    compressed1: bool,
    cpus1: nat,
    ram1: nat,
    server2: Seq<char>,
    compressed2: bool,
    cpus2: nat,
    ram2: nat,
)
    requires
        target_name(server1, compressed1, cpus1, ram1) == target_name(
            server2,
            compressed2,
            cpus2,
            ram2,
        ),
    ensures
        slashes_to_dashes(server1) == slashes_to_dashes(server2),
        compressed1 == compressed2,
        cpus1 == cpus2,
        ram1 == ram2,
{
    reveal_strlit("-");
    reveal_strlit("compressed");
    reveal_strlit("uncompressed");
    reveal_strlit("-cpus-");
    reveal_strlit("-ram-");
    reveal_strlit("m");
    lemma_decimal_text_digits(cpus1);
    lemma_decimal_text_digits(cpus2);
    lemma_decimal_text_digits(ram1);
    lemma_decimal_text_digits(ram2);
    let a1 = slashes_to_dashes(server1) + "-"@ + compression_label(compressed1);
    let a2 = slashes_to_dashes(server2) + "-"@ + compression_label(compressed2);
    let b1 = a1 + "-cpus-"@ + decimal_text(cpus1) + "-ram-"@;
    let b2 = a2 + "-cpus-"@ + decimal_text(cpus2) + "-ram-"@;
    // The unit letter at the end, then the digits of the RAM size.
    lemma_cancel_suffix(b1 + decimal_text(ram1), b2 + decimal_text(ram2), "m"@);
    assert(b1.last() == '-');
    assert(b2.last() == '-');
    lemma_split_digit_tail(b1, decimal_text(ram1), b2, decimal_text(ram2));
    lemma_decimal_text_injective(ram1, ram2);
    // The digits of the CPU count.
    lemma_cancel_suffix(
        a1 + "-cpus-"@ + decimal_text(cpus1),
        a2 + "-cpus-"@ + decimal_text(cpus2),
        "-ram-"@,
    );
    assert((a1 + "-cpus-"@).last() == '-');
    assert((a2 + "-cpus-"@).last() == '-');
    lemma_split_digit_tail(
        a1 + "-cpus-"@,
        decimal_text(cpus1),
        a2 + "-cpus-"@,
        decimal_text(cpus2),
    );
    lemma_decimal_text_injective(cpus1, cpus2);
    lemma_cancel_suffix(a1, a2, "-cpus-"@);
    // The compression label: the two labels differ eleven characters from
    // the end, where one has the dash before it and the other its `n`.
    let p1 = slashes_to_dashes(server1) + "-"@;
    let p2 = slashes_to_dashes(server2) + "-"@;
    if compressed1 != compressed2 {
        let i = a1.len() - 11;
        if compressed1 {
            assert(a1[i] == p1[p1.len() - 1]);
            assert(a2[i] == "uncompressed"@[1]);
        } else {
            assert(a2[i] == p2[p2.len() - 1]);
            assert(a1[i] == "uncompressed"@[1]);
        }
        assert(false);
    }
    lemma_cancel_suffix(p1, p2, compression_label(compressed1));
    lemma_cancel_suffix(slashes_to_dashes(server1), slashes_to_dashes(server2), "-"@);
}

/// Server names that hold no `-` differ after the replacement of `/` by `-`
/// wherever they differ before it.
pub proof fn lemma_dashes_keep_apart(server1: Seq<char>, server2: Seq<char>)
    requires
        !server1.contains('-'),
        !server2.contains('-'),
        slashes_to_dashes(server1) == slashes_to_dashes(server2),
    ensures
        server1 == server2,
{
    let d1 = slashes_to_dashes(server1);
    let d2 = slashes_to_dashes(server2);
    assert(server1.len() == d1.len());
    assert(server2.len() == d2.len());
    assert forall|i: int| 0 <= i < server1.len() implies server1[i] == server2[i] by {
        assert(d1[i] == d2[i]);
        assert(server1.contains(server1[i]));
        assert(server2.contains(server2[i]));
        assert(server1[i] != '-');
        assert(server2[i] != '-');
        assert(d1[i] == if server1[i] == '/' { '-' } else { server1[i] });
        assert(d2[i] == if server2[i] == '/' { '-' } else { server2[i] });
    }
    assert(server1 =~= server2);
}

/// Two targets with the same name are the same target, unless their server
/// names differ only in having `/` where the other has `-`: such names fall
/// together, since `/` is written as `-`.
pub proof fn lemma_name_unique(a: TestTarget, b: TestTarget)
    requires
        a.spec_name() == b.spec_name(),
        slashes_to_dashes(a.server_name@) == slashes_to_dashes(b.server_name@)
            ==> a.server_name@ == b.server_name@,
    ensures
        a.server_name@ == b.server_name@,
        a.is_compressed == b.is_compressed,
        a.num_cpus == b.num_cpus,
        a.ram_mb == b.ram_mb,
{
    lemma_name_determines_fields(
        a.server_name@,
        a.is_compressed,
        a.num_cpus as nat,
        a.ram_mb as nat,
        b.server_name@,
        b.is_compressed,
        b.num_cpus as nat,
        b.ram_mb as nat,
    );
}

} // verus!
