# map_server

Verified game rules of a map server for a 1.x-era MMO emulator, written
in Verus: each public function states what it returns or changes in its
`requires`/`ensures`, and the properties that span several calls stand
as `law_*` proof functions.

- `src/` — the library, one module per area: quests and the journal
  (`quest`, `bitstream`), class experience (`leveling`), crafting and
  regional guildleves (`crafting`, `leve`), Grand Company ranks and seals
  (`grand_company`), inventory packages (`inventory`), retainers and
  their bazaar (`retainer`, `bazaar`), gathering (`gathering`), combat,
  hate and mounts (`combat`), content battles (`content`), status
  effects (`status`), hotbars (`hotbar`), achievements (`achievement`),
  linkshell chat (`social`) and the subpacket wire format (`wire`).
- `tests/` — scenario tests run against the compiled library.
- `app/` — the I/O around it: scratch databases, the script tree walk,
  draining a session's packet channel, and database rows.
