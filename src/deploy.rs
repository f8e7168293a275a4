//! The computations of the packaging and deployment workflow.
use vstd::prelude::*;

verus! {

pub open spec fn aarch64_prefix() -> Seq<char> {
    seq!['a', 'a', 'r', 'c', 'h', '6', '4']
}

/// The function architecture for a Rust target triple: `arm64` for an
/// `aarch64` target, `x86_64` for any other.
pub open spec fn arch_of(target: Seq<char>) -> Seq<char> {
    if target.len() >= 7 && target.take(7) == aarch64_prefix() {
        seq!['a', 'r', 'm', '6', '4']
    } else {
        seq!['x', '8', '6', '_', '6', '4']
    }
}

/// The function architecture for the Rust target triple `target`.
pub fn lambda_arch(target: &str) -> (r: &'static str)
    ensures
        r@ == arch_of(target@),
{
    let prefix = "aarch64";
    proof {
        reveal_strlit("aarch64");
        reveal_strlit("arm64");
        reveal_strlit("x86_64");
        assert(prefix@ =~= aarch64_prefix());
    }
    let n = target.unicode_len();
    if n < 7 {
        return "x86_64";
    }
    let mut i: usize = 0;
    while i < 7
        invariant
            i <= 7 <= n,
            n == target@.len(),
            prefix@ == aarch64_prefix(),
            target@.take(i as int) == aarch64_prefix().take(i as int),
        decreases 7 - i,
    {
        if target.get_char(i) != prefix.get_char(i) {
            proof {
                assert(target@.take(7)[i as int] == target@[i as int]);
                assert(target@.take(7)[i as int] != aarch64_prefix()[i as int]);
                assert(target@.take(7) != aarch64_prefix());
                reveal_strlit("x86_64");
            }
            return "x86_64";
        }
        proof {
            assert(target@.take(i + 1) =~= target@.take(i as int).push(target@[i as int]));
            assert(aarch64_prefix().take(i + 1) =~= aarch64_prefix().take(i as int).push(
                aarch64_prefix()[i as int],
            ));
        }
        i = i + 1;
    }
    proof {
        assert(aarch64_prefix().take(7) =~= aarch64_prefix());
        reveal_strlit("arm64");
    }
    "arm64"
}

/// `name` with every `-` replaced by `_`, as Cargo names binaries.
pub open spec fn binary_name_of(name: Seq<char>) -> Seq<char> {
    name.map_values(|c: char| if c == '-' { '_' } else { c })
}

/// The name of the binary that Cargo builds for the package `package`.
pub fn binary_name(package: &str) -> (r: String)
    ensures
        r@ == binary_name_of(package@),
{
    let n = package.unicode_len();
    let mut out = String::new();
    let mut i: usize = 0;
    while i < n
        invariant
            i <= n,
            n == package@.len(),
            out@ == binary_name_of(package@.take(i as int)),
        decreases n - i,
    {
        let ghost before = out@;
        if package.get_char(i) == '-' {
            out.append("_");
            proof {
                reveal_strlit("_");
                assert("_"@ =~= seq!['_']);
            }
        } else {
            let one = package.substring_char(i, i + 1);
            out.append(one);
            proof {
                assert(one@ =~= seq![package@[i as int]]);
            }
        }
        proof {
            assert(out@ =~= before.push(if package@[i as int] == '-' { '_' } else { package@[i as int] }));
        }
        proof {
            assert(binary_name_of(package@.take(i + 1)) =~= binary_name_of(package@.take(i as int)).push(
                if package@[i as int] == '-' { '_' } else { package@[i as int] },
            ));
            assert(out@ =~= binary_name_of(package@.take(i + 1)));
        }
        i = i + 1;
    }
    proof {
        assert(package@.take(n as int) =~= package@);
    }
    out
}

} // verus!
