# scd

The rules of SCD, a desktop program that keeps a register of companies and
their employees and watches over the employees' leave (férias): which
periods are owed, which are overdue, which are due soon, when to warn, and
how the local database and the cloud copy converge.

- `src/` is the library, written in Verus and verified: each public function
  states in `requires`/`ensures` what it does, and the `lei_*` proof
  functions state what holds across calls.
  - `texto`, `numeros`, `datas`, `json`: text, numbers, calendar dates and
    JSON values, with their specifications.
  - `cnpj`, `empresas`: CNPJ checking, company data, the lookup of a CNPJ
    in the public sources (step by step), the import of a spreadsheet.
  - `funcionarios`: CPF checking, hiring dates, employee registration and
    import.
  - `ferias`: leave periods, the overdue and due-soon lists, the automatic
    warning and the manual alarm, the notifications.
  - `avisos`: when the notification window opens again.
  - `usuarios`: user names, passwords (bcrypt), sessions, permissions.
  - `banco`: schema versions and the move of old databases to UUID keys.
  - `sincronia`: what a synchronisation cycle sends and what a received row
    does (last write wins).
- `tests/` runs the library on concrete values.
- `app/` is the program around it: the window (Tauri), the SQLite file, the
  HTTP calls and the spreadsheet reader. It keeps no rule of its own.
