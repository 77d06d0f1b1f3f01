pub mod texto;
pub mod numeros;
pub mod datas;
pub mod ferias;
pub mod json;
pub mod cnpj;
pub mod sincronia;
pub mod usuarios;
pub mod avisos;
pub mod empresas;
pub mod banco;
pub mod funcionarios;
