# sayonara_core

The decision logic of a drive-sanitisation tool, verified with Verus.

- `src/` — the verified library: parsers for what `smartctl`, `hdparm`,
  `nvme`, `sedutil-cli`, `lspci` and the vendor RAID tools print; the
  capability, freeze and encryption decisions drawn from them; the wipe
  plans (DoD, Gutmann, zoned and multi-namespace NVMe, Optane, hybrid,
  eMMC); the unfreeze strategies and the vendor procedures as step
  machines; HMAC-DRBG, the entropy pool and the secure generator's state;
  device hashes and certificate signatures. Every public function states
  its result in its `ensures`; the laws that span functions are proof
  functions named `lemma_*`.
- `app/` — the runtime around it: running the tools, reading sysfs and
  sectors, writing the devices, pausing, asking the operator, and the
  serialisable certificate records.
- `tests/` — tests of the library on concrete inputs.
