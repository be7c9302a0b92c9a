//! What firmware has in memory once it carried out the script.
use crate::devices::fw_cfg::acpi_loader::AcpiTable;
use vstd::prelude::*;

verus! {

/// The two files as firmware has them in memory.
pub struct Loaded {
    pub rsdp: Seq<u8>,
    pub tables: Seq<u8>,
}

/// Where firmware put the two files.
pub struct Placed {
    pub rsdp: nat,
    pub tables: nat,
}

/// The little-endian number in `size` bytes.
pub open spec fn number(s: Seq<u8>, at: int, size: nat) -> int
    decreases size,
{
    if size == 0 {
        0
    } else {
        s[at] + 256 * number(s, at + 1, (size - 1) as nat)
    }
}

/// One more than the largest number in `size` bytes.
pub open spec fn limit(size: nat) -> int
    decreases size,
{
    if size == 0 {
        1
    } else {
        256 * limit((size - 1) as nat)
    }
}

/// Bytes with the low bytes of a number put in, little-endian.
pub open spec fn with_number(s: Seq<u8>, at: int, size: nat, v: int) -> Seq<u8>
    decreases size,
{
    if size == 0 {
        s
    } else {
        with_number(s.update(at, (v % 256) as u8), at + 1, (size - 1) as nat, v / 256)
    }
}

/// The sum of so many bytes.
pub open spec fn sum(s: Seq<u8>, start: int, len: nat) -> int
    decreases len,
{
    if len == 0 {
        0
    } else {
        sum(s, start, (len - 1) as nat) + s[start + len - 1]
    }
}

/// The byte that brings a sum to zero.
pub open spec fn complement(total: int) -> u8 {
    ((256 - total % 256) % 256) as u8
}

/// The name of the root pointer's file in a command.
pub open spec fn rsdp_name() -> Seq<u8> {
    crate::devices::fw_cfg::names::file_name("etc/acpi/rsdp"@)
}

/// The name of the tables' file in a command.
pub open spec fn tables_name() -> Seq<u8> {
    crate::devices::fw_cfg::names::file_name("etc/acpi/tables"@)
}

/// Command `i` of a script.
pub open spec fn command(script: Seq<u8>, i: int) -> Seq<u8> {
    script.subrange(128 * i, 128 * i + 128)
}

impl Loaded {
    /// The contents of a file.
    pub open spec fn file(self, name: Seq<u8>) -> Seq<u8> {
        if name == rsdp_name() {
            self.rsdp
        } else {
            self.tables
        }
    }

    /// With other contents of a file.
    pub open spec fn with_file(self, name: Seq<u8>, contents: Seq<u8>) -> Loaded {
        if name == rsdp_name() {
            Loaded { rsdp: contents, ..self }
        } else {
            Loaded { tables: contents, ..self }
        }
    }

    /// After a command of 128 bytes. Command 2 adds the address of the file that
    /// is named second to a number in the file that is named first. Command 3
    /// sets a byte to what a range of bytes lacks to sum up to zero.
    pub open spec fn after(self, placed: Placed, c: Seq<u8>) -> Loaded {
        let code = crate::bytes::le32(c, 0);
        let name = c.subrange(4, 60);
        let f = self.file(name);
        if code == 2 {
            let address = if c.subrange(60, 116) == rsdp_name() {
                placed.rsdp
            } else {
                placed.tables
            };
            let at = crate::bytes::le32(c, 116) as int;
            let size = c[120] as nat;
            self.with_file(name, with_number(f, at, size, number(f, at, size) + address))
        } else if code == 3 {
            let at = crate::bytes::le32(c, 60) as int;
            let start = crate::bytes::le32(c, 64) as int;
            let len = crate::bytes::le32(c, 68) as nat;
            self.with_file(name, f.update(at, complement(sum(f, start, len))))
        } else {
            self
        }
    }

    /// After the first `n` commands of a script.
    pub open spec fn run(self, placed: Placed, script: Seq<u8>, n: nat) -> Loaded
        decreases n,
    {
        if n == 0 {
            self
        } else {
            self.run(placed, script, (n - 1) as nat).after(
                placed,
                command(script, n - 1),
            )
        }
    }
}

proof fn lemma_names_differ()
    ensures
        rsdp_name() != tables_name(),
{
    reveal_strlit("etc/acpi/rsdp");
    reveal_strlit("etc/acpi/tables");
    vstd::utf8::is_ascii_chars_encode_utf8("etc/acpi/rsdp"@);
    vstd::utf8::is_ascii_chars_encode_utf8("etc/acpi/tables"@);
    assert("etc/acpi/rsdp"@[9] == 'r');
    assert("etc/acpi/tables"@[9] == 't');
    assert(rsdp_name()[9] == 'r' as u8);
    assert(tables_name()[9] == 't' as u8);
}

proof fn lemma_pointer(m: Loaded, placed: Placed, dst: Seq<char>, src: Seq<char>, at: u32, size: u8)
    ensures
        ({
            let name = crate::devices::fw_cfg::names::file_name(dst);
            let f = m.file(name);
            let address = if crate::devices::fw_cfg::names::file_name(src) == rsdp_name() {
                placed.rsdp
            } else {
                placed.tables
            };
            m.after(
                placed,
                crate::devices::fw_cfg::acpi_loader::add_pointer(dst, src, at, size),
            ) == m.with_file(
                name,
                with_number(f, at as int, size as nat, number(f, at as int, size as nat) + address),
            )
        }),
{
    crate::devices::fw_cfg::acpi_loader::add_pointer_layout(dst, src, at, size);
}

proof fn lemma_checksum(m: Loaded, placed: Placed, file: Seq<char>, at: u32, start: u32, len: u32)
    ensures
        ({
            let name = crate::devices::fw_cfg::names::file_name(file);
            let f = m.file(name);
            m.after(
                placed,
                crate::devices::fw_cfg::acpi_loader::add_checksum(file, at, start, len),
            ) == m.with_file(
                name,
                f.update(at as int, complement(sum(f, start as int, len as nat))),
            )
        }),
{
    crate::devices::fw_cfg::acpi_loader::add_checksum_layout(file, at, start, len);
}

proof fn lemma_allocate(m: Loaded, placed: Placed, file: Seq<char>, align: u32, zone: u8)
    ensures
        m.after(placed, crate::devices::fw_cfg::acpi_loader::allocate(file, align, zone)) == m,
{
    crate::devices::fw_cfg::acpi_loader::allocate_layout(file, align, zone);
}

proof fn lemma_run_joined(m: Loaded, placed: Placed, a: Seq<u8>, b: Seq<u8>, k: nat, n: nat)
    requires
        a.len() == 128 * k,
        b.len() >= 128 * n,
    ensures
        m.run(placed, a + b, k + n) == m.run(placed, a, k).run(placed, b, n),
    decreases n,
{
    let s = a + b;
    if n == 0 {
        lemma_run_prefix(m, placed, a, b, k);
    } else {
        lemma_run_joined(m, placed, a, b, k, (n - 1) as nat);
        assert(k + n - 1 == k + (n - 1) as nat);
        assert(command(s, k + n - 1) =~= command(b, n - 1));
    }
}

proof fn lemma_run_prefix(m: Loaded, placed: Placed, a: Seq<u8>, b: Seq<u8>, k: nat)
    requires
        a.len() >= 128 * k,
    ensures
        m.run(placed, a + b, k) == m.run(placed, a, k),
    decreases k,
{
    if k > 0 {
        lemma_run_prefix(m, placed, a, b, (k - 1) as nat);
        assert(command(a + b, k - 1) =~= command(a, k - 1));
    }
}

proof fn lemma_run_one(m: Loaded, placed: Placed, c: Seq<u8>)
    requires
        c.len() == 128,
    ensures
        m.run(placed, c, 1) == m.after(placed, c),
{
    reveal_with_fuel(Loaded::run, 2);
    assert(command(c, 0) =~= c);
}

proof fn lemma_run_zeros(m: Loaded, placed: Placed, s: Seq<u8>, n: nat)
    requires
        s.len() >= 128 * n,
        forall|i: int| 0 <= i < s.len() ==> s[i] == 0,
    ensures
        m.run(placed, s, n) == m,
    decreases n,
{
    if n > 0 {
        lemma_run_zeros(m, placed, s, (n - 1) as nat);
        let c = command(s, n - 1);
        assert(c[0] == 0 && c[1] == 0 && c[2] == 0 && c[3] == 0);
    }
}

proof fn lemma_with_number(s: Seq<u8>, at: int, size: nat, v: int)
    requires
        0 <= at,
        at + size <= s.len(),
        0 <= v,
    ensures
        with_number(s, at, size, v).len() == s.len(),
        forall|i: int|
            0 <= i < s.len() && !(at <= i < at + size) ==> #[trigger] with_number(
                s,
                at,
                size,
                v,
            )[i] == s[i],
        number(with_number(s, at, size, v), at, size) == v % limit(size),
        limit(size) > 0,
    decreases size,
{
    if size > 0 {
        let n = (size - 1) as nat;
        let t = s.update(at, (v % 256) as u8);
        let r = with_number(t, at + 1, n, v / 256);
        lemma_with_number(t, at + 1, n, v / 256);
        assert(r[at] == t[at]);
        vstd::arithmetic::div_mod::lemma_mod_breakdown(v, 256, limit(n));
    }
}

proof fn lemma_same_number(s: Seq<u8>, t: Seq<u8>, at: int, size: nat)
    requires
        forall|i: int| at <= i < at + size ==> #[trigger] s[i] == t[i],
    ensures
        number(s, at, size) == number(t, at, size),
    decreases size,
{
    if size > 0 {
        assert(s[at] == t[at]);
        lemma_same_number(s, t, at + 1, (size - 1) as nat);
    }
}

proof fn lemma_number_bound(s: Seq<u8>, at: int, size: nat)
    ensures
        number(s, at, size) >= 0,
    decreases size,
{
    if size > 0 {
        lemma_number_bound(s, at + 1, (size - 1) as nat);
    }
}

proof fn lemma_same_sum(s: Seq<u8>, t: Seq<u8>, start: int, len: nat)
    requires
        forall|i: int| start <= i < start + len ==> #[trigger] s[i] == t[i],
    ensures
        sum(s, start, len) == sum(t, start, len),
    decreases len,
{
    if len > 0 {
        lemma_same_sum(s, t, start, (len - 1) as nat);
    }
}

proof fn lemma_sum_updated(s: Seq<u8>, start: int, len: nat, at: int, b: u8)
    requires
        0 <= start <= at < start + len <= s.len(),
    ensures
        sum(s.update(at, b), start, len) == sum(s, start, len) - s[at] + b,
    decreases len,
{
    if at == start + len - 1 {
        lemma_same_sum(s.update(at, b), s, start, (len - 1) as nat);
    } else {
        lemma_sum_updated(s, start, (len - 1) as nat, at, b);
    }
}

proof fn lemma_complement(total: int)
    ensures
        (total + complement(total)) % 256 == 0,
{
}

/// Whether two ranges, given by start and length, have no byte in common.
pub open spec fn apart(a: int, a_len: int, b: int, b_len: int) -> bool {
    a + a_len <= b || b + b_len <= a
}

/// Tables as they are built: everything fits the files and the script, pointers
/// and tables do not overlap among each other, and no pointer lies over a
/// checksum.
pub open spec fn well_placed(t: AcpiTable) -> bool {
    let p = t.table_pointers@;
    let c = t.table_checksums@;
    &&& t.wf()
    &&& t.rsdp@.len() == 20 || 36 <= t.rsdp@.len() <= 0x1000
    &&& t.tables@.len() <= 0x2_0000
    &&& p.len() + c.len() <= 27
    &&& forall|i: int|
        0 <= i < p.len() ==> (#[trigger] p[i]).0 + p[i].1 <= t.tables@.len()
    &&& forall|i: int, j: int|
        0 <= i < j < p.len() ==> apart(
            (#[trigger] p[i]).0 as int,
            p[i].1 as int,
            (#[trigger] p[j]).0 as int,
            p[j].1 as int,
        )
    &&& forall|i: int|
        0 <= i < c.len() ==> 9 < (#[trigger] c[i]).1 && c[i].0 + c[i].1 <= t.tables@.len()
    &&& forall|i: int, j: int|
        0 <= i < j < c.len() ==> apart(
            (#[trigger] c[i]).0 as int,
            c[i].1 as int,
            (#[trigger] c[j]).0 as int,
            c[j].1 as int,
        )
    &&& forall|i: int, j: int|
        0 <= i < p.len() && 0 <= j < c.len() ==> apart(
            (#[trigger] p[i]).0 as int,
            p[i].1 as int,
            (#[trigger] c[j]).0 + 9,
            1,
        )
}

/// Whether a byte of the tables belongs to one of the first `n` pointers.
pub open spec fn in_pointer(p: Seq<(usize, u8)>, n: int, i: int) -> bool {
    exists|k: int| 0 <= k < n && (#[trigger] p[k]).0 <= i < p[k].0 + p[k].1
}

/// Whether a byte of the tables is one of the first `n` checksums.
pub open spec fn is_checksum(c: Seq<(usize, usize)>, n: int, i: int) -> bool {
    exists|k: int| 0 <= k < n && i == (#[trigger] c[k]).0 + 9
}

/// The two files before the script is carried out.
pub open spec fn unpacked(t: AcpiTable) -> Loaded {
    Loaded {
        rsdp: crate::devices::fw_cfg::acpi_loader::cleared_rsdp(t.rsdp@),
        tables: crate::devices::fw_cfg::acpi_loader::tables_content(t),
    }
}

proof fn lemma_run_pointers(m: Loaded, placed: Placed, p: Seq<(usize, u8)>, n: nat)
    requires
        n <= p.len(),
        m.tables.len() <= 0x2_0000,
        forall|i: int| 0 <= i < p.len() ==> (#[trigger] p[i]).0 + p[i].1 <= m.tables.len(),
        forall|i: int, j: int|
            0 <= i < j < p.len() ==> apart(
                (#[trigger] p[i]).0 as int,
                p[i].1 as int,
                (#[trigger] p[j]).0 as int,
                p[j].1 as int,
            ),
    ensures
        ({
            let r = m.run(
                placed,
                crate::devices::fw_cfg::acpi_loader::pointer_commands(p, n),
                n,
            );
            &&& r.rsdp == m.rsdp
            &&& r.tables.len() == m.tables.len()
            &&& forall|i: int|
                0 <= i < m.tables.len() && !in_pointer(p, n as int, i) ==> #[trigger] r.tables[i]
                    == m.tables[i]
            &&& forall|k: int|
                0 <= k < n ==> number(r.tables, (#[trigger] p[k]).0 as int, p[k].1 as nat) == (
                number(m.tables, p[k].0 as int, p[k].1 as nat) + placed.tables) % limit(
                    p[k].1 as nat,
                )
        }),
    decreases n,
{
    if n > 0 {
        let q = (n - 1) as nat;
        let prev = crate::devices::fw_cfg::acpi_loader::pointer_commands(p, q);
        let at = p[q as int].0 as int;
        let size = p[q as int].1 as nat;
        let c = crate::devices::fw_cfg::acpi_loader::add_pointer(
            "etc/acpi/tables"@,
            "etc/acpi/tables"@,
            crate::devices::fw_cfg::acpi_loader::low32(at),
            p[q as int].1,
        );
        lemma_run_pointers(m, placed, p, q);
        crate::devices::fw_cfg::acpi_loader::lemma_command_lengths(p, q, Seq::empty(), 0);
        crate::devices::fw_cfg::acpi_loader::commands_have_one_size(
            "etc/acpi/tables"@,
            "etc/acpi/tables"@,
            crate::devices::fw_cfg::acpi_loader::low32(at),
            0,
            0,
            p[q as int].1,
        );
        lemma_names_differ();
        lemma_run_joined(m, placed, prev, c, q, 1);
        let before = m.run(placed, prev, q);
        lemma_run_one(before, placed, c);
        assert(p[q as int].0 + p[q as int].1 <= m.tables.len());
        lemma_pointer(
            before,
            placed,
            "etc/acpi/tables"@,
            "etc/acpi/tables"@,
            crate::devices::fw_cfg::acpi_loader::low32(at),
            p[q as int].1,
        );
        lemma_number_bound(before.tables, at, size);
        let v = number(before.tables, at, size) + placed.tables;
        lemma_with_number(before.tables, at, size, v);
        let r = m.run(
            placed,
            crate::devices::fw_cfg::acpi_loader::pointer_commands(p, n),
            n,
        );
        assert(r.tables == with_number(before.tables, at, size, v));
        assert forall|i: int|
            0 <= i < m.tables.len() && !in_pointer(p, n as int, i) implies #[trigger] r.tables[i]
            == m.tables[i] by {
            assert(!in_pointer(p, q as int, i)) by {
                if in_pointer(p, q as int, i) {
                    let k = choose|k: int|
                        0 <= k < q && (#[trigger] p[k]).0 <= i < p[k].0 + p[k].1;
                    assert(p[k].0 <= i < p[k].0 + p[k].1);
                }
            }
            assert(!(p[q as int].0 <= i < p[q as int].0 + p[q as int].1));
            assert(before.tables[i] == m.tables[i]);
        }
        assert forall|i: int| at <= i < at + size implies #[trigger] before.tables[i]
            == m.tables[i] by {
            if in_pointer(p, q as int, i) {
                let k = choose|k: int| 0 <= k < q && (#[trigger] p[k]).0 <= i < p[k].0 + p[k].1;
                assert(apart(p[k].0 as int, p[k].1 as int, p[q as int].0 as int, p[q as int].1 as int));
            }
        }
        lemma_same_number(before.tables, m.tables, at, size);
        assert forall|k: int| 0 <= k < n implies number(
            r.tables,
            (#[trigger] p[k]).0 as int,
            p[k].1 as nat,
        ) == (number(m.tables, p[k].0 as int, p[k].1 as nat) + placed.tables) % limit(
            p[k].1 as nat,
        ) by {
            if k < q {
                assert(apart(p[k].0 as int, p[k].1 as int, p[q as int].0 as int, p[q as int].1 as int));
                assert(p[k].0 + p[k].1 <= m.tables.len());
                assert forall|i: int| p[k].0 <= i < p[k].0 + p[k].1 implies #[trigger] r.tables[i]
                    == before.tables[i] by {}
                lemma_same_number(r.tables, before.tables, p[k].0 as int, p[k].1 as nat);
            }
        }
    }
}

proof fn lemma_run_checksums(m: Loaded, placed: Placed, c: Seq<(usize, usize)>, n: nat)
    requires
        n <= c.len(),
        m.tables.len() <= 0x2_0000,
        forall|i: int|
            0 <= i < c.len() ==> 9 < (#[trigger] c[i]).1 && c[i].0 + c[i].1 <= m.tables.len(),
        forall|i: int, j: int|
            0 <= i < j < c.len() ==> apart(
                (#[trigger] c[i]).0 as int,
                c[i].1 as int,
                (#[trigger] c[j]).0 as int,
                c[j].1 as int,
            ),
        forall|i: int| 0 <= i < c.len() ==> m.tables[(#[trigger] c[i]).0 + 9] == 0,
    ensures
        ({
            let r = m.run(
                placed,
                crate::devices::fw_cfg::acpi_loader::checksum_commands(c, n),
                n,
            );
            &&& r.rsdp == m.rsdp
            &&& r.tables.len() == m.tables.len()
            &&& forall|i: int|
                0 <= i < m.tables.len() && !is_checksum(c, n as int, i) ==> #[trigger] r.tables[i]
                    == m.tables[i]
            &&& forall|k: int|
                0 <= k < n ==> sum(r.tables, (#[trigger] c[k]).0 as int, c[k].1 as nat) % 256 == 0
        }),
    decreases n,
{
    if n > 0 {
        let q = (n - 1) as nat;
        let prev = crate::devices::fw_cfg::acpi_loader::checksum_commands(c, q);
        let start = c[q as int].0 as int;
        let len = c[q as int].1 as nat;
        let at = start + 9;
        let cmd = crate::devices::fw_cfg::acpi_loader::add_checksum(
            "etc/acpi/tables"@,
            crate::devices::fw_cfg::acpi_loader::low32(at),
            crate::devices::fw_cfg::acpi_loader::low32(start),
            crate::devices::fw_cfg::acpi_loader::low32(len as int),
        );
        lemma_run_checksums(m, placed, c, q);
        crate::devices::fw_cfg::acpi_loader::lemma_command_lengths(Seq::empty(), 0, c, q);
        crate::devices::fw_cfg::acpi_loader::commands_have_one_size(
            "etc/acpi/tables"@,
            seq![],
            crate::devices::fw_cfg::acpi_loader::low32(at),
            crate::devices::fw_cfg::acpi_loader::low32(start),
            crate::devices::fw_cfg::acpi_loader::low32(len as int),
            0,
        );
        lemma_names_differ();
        lemma_run_joined(m, placed, prev, cmd, q, 1);
        let before = m.run(placed, prev, q);
        lemma_run_one(before, placed, cmd);
        assert(c[q as int].0 + c[q as int].1 <= m.tables.len());
        lemma_checksum(
            before,
            placed,
            "etc/acpi/tables"@,
            crate::devices::fw_cfg::acpi_loader::low32(at),
            crate::devices::fw_cfg::acpi_loader::low32(start),
            crate::devices::fw_cfg::acpi_loader::low32(len as int),
        );
        let r = m.run(
            placed,
            crate::devices::fw_cfg::acpi_loader::checksum_commands(c, n),
            n,
        );
        assert(r.rsdp == m.rsdp);
        assert(r.tables == before.tables.update(
            at,
            complement(sum(before.tables, start, len)),
        ));
        lemma_checksum_step(m.tables, before.tables, r.tables, c, q);
    }
}

proof fn lemma_checksum_step(
    tables: Seq<u8>,
    before: Seq<u8>,
    after: Seq<u8>,
    c: Seq<(usize, usize)>,
    q: nat,
)
    requires
        q < c.len(),
        before.len() == tables.len(),
        forall|i: int|
            0 <= i < c.len() ==> 9 < (#[trigger] c[i]).1 && c[i].0 + c[i].1 <= tables.len(),
        forall|i: int, j: int|
            0 <= i < j < c.len() ==> apart(
                (#[trigger] c[i]).0 as int,
                c[i].1 as int,
                (#[trigger] c[j]).0 as int,
                c[j].1 as int,
            ),
        forall|i: int| 0 <= i < c.len() ==> tables[(#[trigger] c[i]).0 + 9] == 0,
        forall|i: int|
            0 <= i < tables.len() && !is_checksum(c, q as int, i) ==> #[trigger] before[i]
                == tables[i],
        forall|k: int|
            0 <= k < q ==> sum(before, (#[trigger] c[k]).0 as int, c[k].1 as nat) % 256 == 0,
        after == before.update(
            c[q as int].0 + 9,
            complement(sum(before, c[q as int].0 as int, c[q as int].1 as nat)),
        ),
    ensures
        after.len() == tables.len(),
        forall|i: int|
            0 <= i < tables.len() && !is_checksum(c, (q + 1) as int, i) ==> #[trigger] after[i] == tables[i],
        forall|k: int|
            0 <= k < q + 1 ==> sum(after, (#[trigger] c[k]).0 as int, c[k].1 as nat) % 256 == 0,
{
    let start = c[q as int].0 as int;
    let len = c[q as int].1 as nat;
    let at = start + 9;
    let total = sum(before, start, len);
    assert(c[q as int].0 + c[q as int].1 <= tables.len());
    assert forall|i: int| 0 <= i < tables.len() && !is_checksum(c, (q + 1) as int, i) implies #[trigger] after[i]
        == tables[i] by {
        assert(!is_checksum(c, q as int, i)) by {
            if is_checksum(c, q as int, i) {
                let k = choose|k: int| 0 <= k < q && i == (#[trigger] c[k]).0 + 9;
                assert(i == c[k].0 + 9);
            }
        }
        assert(i != c[q as int].0 + 9);
        assert(before[i] == tables[i]);
    }
    assert(before[at] == 0) by {
        if is_checksum(c, q as int, at) {
            let k = choose|k: int| 0 <= k < q && at == (#[trigger] c[k]).0 + 9;
            assert(apart(c[k].0 as int, c[k].1 as int, c[q as int].0 as int, c[q as int].1 as int));
        }
        assert(tables[c[q as int].0 + 9] == 0);
    }
    lemma_sum_updated(before, start, len, at, complement(total));
    lemma_complement(total);
    assert forall|k: int| 0 <= k < q + 1 implies sum(
        after,
        (#[trigger] c[k]).0 as int,
        c[k].1 as nat,
    ) % 256 == 0 by {
        if k < q {
            assert(apart(c[k].0 as int, c[k].1 as int, c[q as int].0 as int, c[q as int].1 as int));
            lemma_same_sum(after, before, c[k].0 as int, c[k].1 as nat);
        }
    }
}

proof fn lemma_run_rsdp(m: Loaded, placed: Placed, n: nat, pointer: int, size: nat)
    requires
        n == (if m.rsdp.len() == 20 {
            2int
        } else {
            3int
        }),
        pointer == (if m.rsdp.len() == 20 {
            16int
        } else {
            24int
        }),
        size == (if m.rsdp.len() == 20 {
            4int
        } else {
            8int
        }),
        m.rsdp.len() == 20 || 36 <= m.rsdp.len() <= 0x1000,
        m.rsdp[8] == 0,
        m.rsdp.len() > 20 ==> m.rsdp[32] == 0,
    ensures
        ({
            let r = m.run(
                placed,
                crate::devices::fw_cfg::acpi_loader::rsdp_commands(m.rsdp.len()),
                n,
            );
            &&& r.tables == m.tables
            &&& r.rsdp.len() == m.rsdp.len()
            &&& number(r.rsdp, pointer, size) == (number(m.rsdp, pointer, size) + placed.tables)
                % limit(size)
            &&& sum(r.rsdp, 0, 20) % 256 == 0
            &&& sum(r.rsdp, 0, m.rsdp.len()) % 256 == 0
            &&& forall|i: int|
                0 <= i < m.rsdp.len() && !(pointer <= i < pointer + size) && i != 8 && !(i == 32
                    && m.rsdp.len() > 20) ==> #[trigger] r.rsdp[i] == m.rsdp[i]
        }),
{
    let long = m.rsdp.len() > 20;
    let rsdp = "etc/acpi/rsdp"@;
    let tables = "etc/acpi/tables"@;
    let (at, width): (u32, u8) = if long {
        (24, 8)
    } else {
        (16, 4)
    };
    let p = crate::devices::fw_cfg::acpi_loader::add_pointer(rsdp, tables, at, width);
    let c = crate::devices::fw_cfg::acpi_loader::add_checksum(rsdp, 8, 0, 20);
    let total_len = crate::devices::fw_cfg::acpi_loader::low32(m.rsdp.len() as int);
    let d = crate::devices::fw_cfg::acpi_loader::add_checksum(rsdp, 32, 0, total_len);
    let cmds = crate::devices::fw_cfg::acpi_loader::rsdp_commands(m.rsdp.len());
    crate::devices::fw_cfg::acpi_loader::commands_have_one_size(rsdp, tables, at, 0, 0, width);
    crate::devices::fw_cfg::acpi_loader::commands_have_one_size(rsdp, tables, 8, 0, 20, 0);
    crate::devices::fw_cfg::acpi_loader::commands_have_one_size(rsdp, tables, 32, 0, total_len, 0);
    lemma_names_differ();
    // The pointer.
    lemma_run_one(m, placed, p);
    lemma_pointer(m, placed, rsdp, tables, at, width);
    lemma_number_bound(m.rsdp, at as int, width as nat);
    let v = number(m.rsdp, at as int, width as nat) + placed.tables;
    lemma_with_number(m.rsdp, at as int, width as nat, v);
    let m1 = m.after(placed, p);
    assert(m1.rsdp == with_number(m.rsdp, at as int, width as nat, v));
    // The checksum of the first part.
    lemma_run_joined(m, placed, p, c, 1, 1);
    lemma_run_one(m1, placed, c);
    lemma_checksum(m1, placed, rsdp, 8, 0, 20);
    let m2 = m1.after(placed, c);
    let first = sum(m1.rsdp, 0, 20);
    assert(m1.rsdp[8] == 0);
    lemma_sum_updated(m1.rsdp, 0, 20, 8, complement(first));
    lemma_complement(first);
    lemma_same_number(m2.rsdp, m1.rsdp, at as int, width as nat);
    if long {
        // The checksum of the whole.
        lemma_run_joined(m, placed, p + c, d, 2, 1);
        lemma_run_one(m2, placed, d);
        lemma_checksum(m2, placed, rsdp, 32, 0, total_len);
        let m3 = m2.after(placed, d);
        let whole = sum(m2.rsdp, 0, m.rsdp.len());
        assert(m2.rsdp[32] == 0);
        lemma_sum_updated(m2.rsdp, 0, m.rsdp.len(), 32, complement(whole));
        lemma_complement(whole);
        lemma_same_sum(m3.rsdp, m2.rsdp, 0, 20);
        lemma_same_number(m3.rsdp, m2.rsdp, at as int, width as nat);
        assert(cmds =~= (p + c) + d);
    } else {
        assert(cmds =~= p + c);
    }
}

/// What firmware has once it carried out the script, wherever it put the files.
/// Every pointer among the tables, and the one in the root pointer, has grown by
/// the address of the tables; the bytes of every table, and both parts of the
/// root pointer, sum up to zero; and no other byte of the tables or of the root
/// pointer has changed.
pub proof fn script_relocates_the_tables(t: AcpiTable, placed: Placed)
    requires
        well_placed(t),
    ensures
        ({
            let r = unpacked(t).run(
                placed,
                crate::devices::fw_cfg::acpi_loader::loader_content(t),
                32,
            );
            let p = t.table_pointers@;
            let c = t.table_checksums@;
            &&& forall|k: int|
                0 <= k < p.len() ==> number(r.tables, (#[trigger] p[k]).0 as int, p[k].1 as nat)
                    == (number(t.tables@, p[k].0 as int, p[k].1 as nat) + placed.tables) % limit(
                    p[k].1 as nat,
                )
            &&& forall|k: int|
                0 <= k < c.len() ==> sum(r.tables, (#[trigger] c[k]).0 as int, c[k].1 as nat) % 256
                    == 0
            &&& forall|i: int|
                0 <= i < t.tables@.len() && !in_pointer(p, p.len() as int, i) && !is_checksum(
                    c,
                    c.len() as int,
                    i,
                ) ==> #[trigger] r.tables[i] == t.tables@[i]
            &&& r.rsdp.len() == t.rsdp@.len()
            &&& t.rsdp@.len() > 20 ==> number(r.rsdp, 24, 8) == (number(t.rsdp@, 24, 8)
                + placed.tables) % limit(8)
            &&& t.rsdp@.len() == 20 ==> number(r.rsdp, 16, 4) == (number(t.rsdp@, 16, 4)
                + placed.tables) % limit(4)
            &&& sum(r.rsdp, 0, 20) % 256 == 0
            &&& sum(r.rsdp, 0, r.rsdp.len()) % 256 == 0
            &&& forall|i: int|
                0 <= i < t.rsdp@.len() && i != 8 && (i < 16 || (t.rsdp@.len() > 20 && (i < 24 || 33
                    <= i))) ==> #[trigger] r.rsdp[i] == t.rsdp@[i]
        }),
{
    let m0 = unpacked(t);
    let p = t.table_pointers@;
    let c = t.table_checksums@;
    let ps = crate::devices::fw_cfg::acpi_loader::pointer_commands(p, p.len());
    let cs = crate::devices::fw_cfg::acpi_loader::checksum_commands(c, c.len());
    lemma_stages(m0, placed, t);
    lemma_relocated(t, placed);
    let m2 = m0.run(placed, ps, p.len()).run(placed, cs, c.len());
    let at: int = if t.rsdp@.len() == 20 {
        16
    } else {
        24
    };
    let size: nat = if t.rsdp@.len() == 20 {
        4
    } else {
        8
    };
    let n: nat = if t.rsdp@.len() == 20 {
        2
    } else {
        3
    };
    lemma_run_rsdp(m2, placed, n, at, size);
    lemma_same_number(m0.rsdp, t.rsdp@, at, size);
    assert(m2.rsdp == m0.rsdp);
    assert(m0.rsdp.len() == t.rsdp@.len());
    let r = m0.run(placed, crate::devices::fw_cfg::acpi_loader::loader_content(t), 32);
    assert(r.tables == m2.tables);
    assert(number(r.rsdp, at, size) == (number(t.rsdp@, at, size) + placed.tables) % limit(size));
    assert forall|i: int|
        0 <= i < t.rsdp@.len() && i != 8 && (i < 16 || (t.rsdp@.len() > 20 && (i < 24 || 33
            <= i))) implies #[trigger] r.rsdp[i] == t.rsdp@[i] by {
        assert(r.rsdp[i] == m2.rsdp[i]);
    }
}

proof fn lemma_relocated(t: AcpiTable, placed: Placed)
    requires
        well_placed(t),
    ensures
        ({
            let p = t.table_pointers@;
            let c = t.table_checksums@;
            let r = unpacked(t).run(
                placed,
                crate::devices::fw_cfg::acpi_loader::pointer_commands(p, p.len()),
                p.len(),
            ).run(
                placed,
                crate::devices::fw_cfg::acpi_loader::checksum_commands(c, c.len()),
                c.len(),
            );
            &&& r.rsdp == unpacked(t).rsdp
            &&& forall|k: int|
                0 <= k < p.len() ==> number(r.tables, (#[trigger] p[k]).0 as int, p[k].1 as nat)
                    == (number(t.tables@, p[k].0 as int, p[k].1 as nat) + placed.tables) % limit(
                    p[k].1 as nat,
                )
            &&& forall|k: int|
                0 <= k < c.len() ==> sum(r.tables, (#[trigger] c[k]).0 as int, c[k].1 as nat) % 256
                    == 0
            &&& forall|i: int|
                0 <= i < t.tables@.len() && !in_pointer(p, p.len() as int, i) && !is_checksum(
                    c,
                    c.len() as int,
                    i,
                ) ==> #[trigger] r.tables[i] == t.tables@[i]
        }),
{
    let m0 = unpacked(t);
    let p = t.table_pointers@;
    let c = t.table_checksums@;
    let cleared = crate::devices::fw_cfg::acpi_loader::cleared(t.tables@, c, c.len());
    crate::devices::fw_cfg::acpi_loader::only_checksums_are_cleared(t.tables@, c, c.len());
    assert(m0.tables.len() == 0x2_0000);
    lemma_run_pointers(m0, placed, p, p.len());
    let m1 = m0.run(
        placed,
        crate::devices::fw_cfg::acpi_loader::pointer_commands(p, p.len()),
        p.len(),
    );
    assert forall|i: int| 0 <= i < c.len() implies m1.tables[(#[trigger] c[i]).0 + 9] == 0 by {
        let at = c[i].0 + 9;
        assert(cleared[c[i].0 + 9] == 0);
        if in_pointer(p, p.len() as int, at) {
            let k = choose|k: int| 0 <= k < p.len() && (#[trigger] p[k]).0 <= at < p[k].0 + p[k].1;
            assert(apart(p[k].0 as int, p[k].1 as int, c[i].0 + 9, 1));
        }
        assert(m1.tables[at] == m0.tables[at]);
    }
    lemma_run_checksums(m1, placed, c, c.len());
    let r = m1.run(
        placed,
        crate::devices::fw_cfg::acpi_loader::checksum_commands(c, c.len()),
        c.len(),
    );
    assert forall|k: int| 0 <= k < p.len() implies number(
        r.tables,
        (#[trigger] p[k]).0 as int,
        p[k].1 as nat,
    ) == (number(t.tables@, p[k].0 as int, p[k].1 as nat) + placed.tables) % limit(
        p[k].1 as nat,
    ) by {
        assert(p[k].0 + p[k].1 <= t.tables@.len());
        assert forall|i: int| p[k].0 <= i < p[k].0 + p[k].1 implies #[trigger] r.tables[i]
            == m1.tables[i] && m0.tables[i] == t.tables@[i] by {
            assert forall|j: int| 0 <= j < c.len() implies i != (#[trigger] c[j]).0 + 9 by {
                assert(apart(p[k].0 as int, p[k].1 as int, c[j].0 + 9, 1));
            }
            assert(!is_checksum(c, c.len() as int, i));
            assert(cleared[i] == t.tables@[i]);
        }
        lemma_same_number(r.tables, m1.tables, p[k].0 as int, p[k].1 as nat);
        assert forall|i: int| p[k].0 <= i < p[k].0 + p[k].1 implies #[trigger] m0.tables[i]
            == t.tables@[i] by {
            assert(r.tables[i] == m1.tables[i]);
        }
        lemma_same_number(m0.tables, t.tables@, p[k].0 as int, p[k].1 as nat);
    }
    assert forall|i: int|
        0 <= i < t.tables@.len() && !in_pointer(p, p.len() as int, i) && !is_checksum(
            c,
            c.len() as int,
            i,
        ) implies #[trigger] r.tables[i] == t.tables@[i] by {
        assert forall|j: int| 0 <= j < c.len() implies i != (#[trigger] c[j]).0 + 9 by {}
        assert(cleared[i] == t.tables@[i]);
        assert(m1.tables[i] == m0.tables[i]);
    }
}

proof fn lemma_stages(m0: Loaded, placed: Placed, t: AcpiTable)
    requires
        t.table_pointers@.len() + t.table_checksums@.len() <= 27,
        t.rsdp@.len() == 20 || t.rsdp@.len() > 20,
    ensures
        ({
            let p = t.table_pointers@;
            let c = t.table_checksums@;
            m0.run(placed, crate::devices::fw_cfg::acpi_loader::loader_content(t), 32) == m0.run(
                placed,
                crate::devices::fw_cfg::acpi_loader::pointer_commands(p, p.len()),
                p.len(),
            ).run(
                placed,
                crate::devices::fw_cfg::acpi_loader::checksum_commands(c, c.len()),
                c.len(),
            ).run(
                placed,
                crate::devices::fw_cfg::acpi_loader::rsdp_commands(t.rsdp@.len()),
                if t.rsdp@.len() == 20 {
                    2
                } else {
                    3
                },
            )
        }),
{
    let p = t.table_pointers@;
    let c = t.table_checksums@;
    let a1 = crate::devices::fw_cfg::acpi_loader::allocate("etc/acpi/rsdp"@, 16, 2);
    let a2 = crate::devices::fw_cfg::acpi_loader::allocate("etc/acpi/tables"@, 4, 1);
    let ps = crate::devices::fw_cfg::acpi_loader::pointer_commands(p, p.len());
    let cs = crate::devices::fw_cfg::acpi_loader::checksum_commands(c, c.len());
    let rs = crate::devices::fw_cfg::acpi_loader::rsdp_commands(t.rsdp@.len());
    let rn: nat = if t.rsdp@.len() == 20 {
        2
    } else {
        3
    };
    let content = crate::devices::fw_cfg::acpi_loader::loader_content(t);
    let script = crate::devices::fw_cfg::acpi_loader::loader_script(t.rsdp@.len(), p, c);
    crate::devices::fw_cfg::acpi_loader::allocate_layout("etc/acpi/rsdp"@, 16, 2);
    crate::devices::fw_cfg::acpi_loader::allocate_layout("etc/acpi/tables"@, 4, 1);
    crate::devices::fw_cfg::acpi_loader::lemma_command_lengths(p, p.len(), c, c.len());
    lemma_rsdp_length(t.rsdp@.len());
    lemma_run_one(m0, placed, a1);
    lemma_allocate(m0, placed, "etc/acpi/rsdp"@, 16, 2);
    lemma_run_joined(m0, placed, a1, a2, 1, 1);
    lemma_run_one(m0, placed, a2);
    lemma_allocate(m0, placed, "etc/acpi/tables"@, 4, 1);
    lemma_run_joined(m0, placed, a1 + a2, ps, 2, p.len());
    lemma_run_joined(m0, placed, a1 + a2 + ps, cs, 2 + p.len(), c.len());
    lemma_run_joined(m0, placed, a1 + a2 + ps + cs, rs, 2 + p.len() + c.len(), rn);
    assert(script == a1 + a2 + ps + cs + rs);
    let n = 2 + p.len() + c.len() + rn;
    let rest = content.skip(script.len() as int);
    assert(content =~= script + rest);
    let done = m0.run(placed, script, n);
    lemma_run_zeros(done, placed, rest, (32 - n) as nat);
    lemma_run_joined(m0, placed, script, rest, n, (32 - n) as nat);
}

proof fn lemma_rsdp_length(len: nat)
    requires
        len >= 20,
    ensures
        crate::devices::fw_cfg::acpi_loader::rsdp_commands(len).len() == (if len == 20 {
            256nat
        } else {
            384nat
        }),
{
    let rsdp = "etc/acpi/rsdp"@;
    let tables = "etc/acpi/tables"@;
    crate::devices::fw_cfg::acpi_loader::add_pointer_layout(rsdp, tables, 16, 4);
    crate::devices::fw_cfg::acpi_loader::add_pointer_layout(rsdp, tables, 24, 8);
    crate::devices::fw_cfg::acpi_loader::add_checksum_layout(rsdp, 8, 0, 20);
    crate::devices::fw_cfg::acpi_loader::add_checksum_layout(
        rsdp,
        32,
        0,
        crate::devices::fw_cfg::acpi_loader::low32(len as int),
    );
}

/// The script begins with finding room for both files: for the root pointer in
/// the area that is searched for it, at a multiple of 16, and for the tables
/// anywhere below 4 GiB, at a multiple of 4.
pub proof fn room_is_found_first(t: AcpiTable)
    ensures
        ({
            let root = command(crate::devices::fw_cfg::acpi_loader::loader_content(t), 0);
            let rest = command(crate::devices::fw_cfg::acpi_loader::loader_content(t), 1);
            &&& crate::bytes::le32(root, 0) == 1
            &&& root.subrange(4, 60) == rsdp_name()
            &&& crate::bytes::le32(root, 60) == 16
            &&& root[64] == 2
            &&& crate::bytes::le32(rest, 0) == 1
            &&& rest.subrange(4, 60) == tables_name()
            &&& crate::bytes::le32(rest, 60) == 4
            &&& rest[64] == 1
        }),
{
    let content = crate::devices::fw_cfg::acpi_loader::loader_content(t);
    let a1 = crate::devices::fw_cfg::acpi_loader::allocate("etc/acpi/rsdp"@, 16, 2);
    let a2 = crate::devices::fw_cfg::acpi_loader::allocate("etc/acpi/tables"@, 4, 1);
    crate::devices::fw_cfg::acpi_loader::allocate_layout("etc/acpi/rsdp"@, 16, 2);
    crate::devices::fw_cfg::acpi_loader::allocate_layout("etc/acpi/tables"@, 4, 1);
    assert(command(content, 0) =~= a1);
    assert(command(content, 1) =~= a2);
}

} // verus!
